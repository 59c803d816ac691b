//! What holds of every session, proved of the state machine as it is
//! specified.

use vstd::prelude::*;
use crate::codec::{
    spec_decode_greeting, spec_decode_request, spec_encode_method_selection, spec_encode_reply,
    spec_encode_request, GreetingView, RequestView,
};
use crate::connect::{spec_target, ConnectFailure};
use crate::framing::{
    lemma_request_survives_fragmentation, spec_absorb_all, spec_concat, FrameKind,
};
use crate::negotiation::{is_first_offered, lemma_first_offered_unique, spec_select_method};
use crate::parser::{spec_parse_protocol, RequestError};
use crate::session::{
    spec_actions, spec_at, spec_fail, spec_run, spec_server_methods, spec_step, ActionView,
    Direction, EventView, Outcome, SessionError, SessionState, SessionView,
};
use crate::wire::{AddressKind, AuthMethod, Command, MalformedMessage, ReplyStatus, VERSION};

verus! {

/// The server selects "no authentication required" exactly where the client
/// offers it, and nothing else.
pub proof fn lemma_server_selection(offered: Seq<u8>)
    ensures
        spec_select_method(spec_server_methods(), offered) == (if offered.contains(0x00) {
            Some(AuthMethod::NoAuthenticationRequired)
        } else {
            None
        }),
{
    let supported = spec_server_methods();
    if offered.contains(0x00) {
        assert(is_first_offered(supported, offered, 0));
        let k = choose|k: int| is_first_offered(supported, offered, k);
        lemma_first_offered_unique(supported, offered, 0, k);
    } else {
        assert forall|k: int| !is_first_offered(supported, offered, k) by {
            if 0 <= k < supported.len() {
                assert(supported[k] == AuthMethod::NoAuthenticationRequired);
            }
        }
    }
}

/// A version other than 5 is a protocol error: a greeting or a request that
/// opens with it does not decode, and the session that receives it closes
/// at once, sends nothing and connects to nothing.
pub proof fn lemma_wrong_version_closes(session: SessionView, bytes: Seq<u8>)
    requires
        session.state == SessionState::Negotiating || session.state
            == SessionState::AwaitingRequest,
        bytes.len() >= 1,
        bytes[0] != VERSION,
    ensures
        spec_decode_greeting(bytes) == Err::<GreetingView, MalformedMessage>(
            MalformedMessage::Version,
        ),
        spec_decode_request(bytes) == Err::<RequestView, MalformedMessage>(
            MalformedMessage::Version,
        ),
        spec_step(session, EventView::Frame(bytes)) == (
            spec_at(SessionState::Closed),
            ActionView::Close(Outcome::Failed(SessionError::Protocol(MalformedMessage::Version))),
        ),
{
}

/// A request for any command but CONNECT is answered with exactly the reply
/// "command not supported", and the session closes without connecting.
pub proof fn lemma_unsupported_command_is_refused(session: SessionView, bytes: Seq<u8>)
    requires
        session.state == SessionState::AwaitingRequest,
        bytes.len() >= 2,
        bytes[0] == VERSION,
        bytes[1] != Command::Connect.spec_code(),
    ensures
        spec_step(session, EventView::Frame(bytes)) == (
            spec_at(SessionState::Closed),
            ActionView::SendAndClose(
                spec_encode_reply(ReplyStatus::CommandNotSupported, None),
                Outcome::Failed(SessionError::Unsupported(ReplyStatus::CommandNotSupported)),
            ),
        ),
        spec_encode_reply(ReplyStatus::CommandNotSupported, None) == seq![
            5u8,
            7u8,
            0u8,
            1u8,
            0u8,
            0u8,
            0u8,
            0u8,
            0u8,
            0u8,
        ],
{
    assert(spec_encode_reply(ReplyStatus::CommandNotSupported, None) =~= seq![
        5u8,
        7u8,
        0u8,
        1u8,
        0u8,
        0u8,
        0u8,
        0u8,
        0u8,
        0u8,
    ]);
}

/// A CONNECT request with an address kind other than IPv4, domain name and
/// IPv6 is answered with exactly the reply "address type not supported", and
/// the session closes without connecting.
pub proof fn lemma_unsupported_address_kind_is_refused(session: SessionView, bytes: Seq<u8>)
    requires
        session.state == SessionState::AwaitingRequest,
        bytes.len() >= 4,
        bytes[0] == VERSION,
        bytes[1] == Command::Connect.spec_code(),
        AddressKind::spec_from_code(bytes[3]) is None,
    ensures
        spec_step(session, EventView::Frame(bytes)) == (
            spec_at(SessionState::Closed),
            ActionView::SendAndClose(
                spec_encode_reply(ReplyStatus::AddressTypeNotSupported, None),
                Outcome::Failed(SessionError::Unsupported(ReplyStatus::AddressTypeNotSupported)),
            ),
        ),
        spec_encode_reply(ReplyStatus::AddressTypeNotSupported, None) == seq![
            5u8,
            8u8,
            0u8,
            1u8,
            0u8,
            0u8,
            0u8,
            0u8,
            0u8,
            0u8,
        ],
{
    assert(spec_encode_reply(ReplyStatus::AddressTypeNotSupported, None) =~= seq![
        5u8,
        8u8,
        0u8,
        1u8,
        0u8,
        0u8,
        0u8,
        0u8,
        0u8,
        0u8,
    ]);
}

/// Fragmented delivery: a CONNECT request that reaches the reader in
/// chunks cut anywhere, with anything after it, is parsed to the request
/// that was sent, and the session that awaits it asks for a connection to
/// the destination that it names: as for the request delivered whole.
pub proof fn lemma_fragmented_request_is_served(
    request: RequestView,
    chunks: Seq<Seq<u8>>,
    tail: Seq<u8>,
)
    requires
        request.wf(),
        request.command == Command::Connect,
        spec_concat(chunks) == spec_encode_request(request) + tail,
    ensures
        ({
            let read = spec_absorb_all(FrameKind::Request, Seq::<u8>::empty(), chunks);
            &&& read == spec_encode_request(request)
            &&& spec_parse_protocol(read) == Ok::<RequestView, RequestError>(request)
            &&& spec_step(spec_at(SessionState::AwaitingRequest), EventView::Frame(read)) == (
                spec_at(SessionState::Connecting),
                ActionView::Connect(spec_target(request)),
            )
        }),
{
    lemma_request_survives_fragmentation(request, chunks, tail);
    let read = spec_encode_request(request);
    assert(read[0] == VERSION);
    assert(read[1] == Command::Connect.spec_code());
    assert(read[3] == request.address_kind.spec_code());
}

/// A session connects only on a request: the one step that asks for a
/// connection is taken while the request is awaited, on bytes that decode to
/// a CONNECT request, and it asks for the destination that the request
/// names.
pub proof fn lemma_connect_needs_request(session: SessionView, event: EventView)
    requires
        spec_step(session, event).1 is Connect,
    ensures
        session.state == SessionState::AwaitingRequest,
        spec_step(session, event).0 == spec_at(SessionState::Connecting),
        event is Frame,
        spec_decode_request(event->Frame_0) is Ok,
        spec_decode_request(event->Frame_0)->Ok_0.command == Command::Connect,
        spec_step(session, event).1 == ActionView::Connect(
            spec_target(spec_decode_request(event->Frame_0)->Ok_0),
        ),
{
}

/// `Closed` is terminal: whatever is reported to a closed session, it stays
/// closed, and it answers every event with the same failure: it sends
/// nothing and asks for no connection.
pub proof fn lemma_closed_is_terminal(session: SessionView, events: Seq<EventView>)
    requires
        session.state == SessionState::Closed,
    ensures
        spec_run(session, events).state == SessionState::Closed,
        forall|event: EventView| #[trigger] spec_step(session, event) == spec_fail(),
        forall|at: int|
            0 <= at < events.len() ==> #[trigger] spec_actions(session, events)[at]
                == ActionView::Close(Outcome::Failed(SessionError::Transport)),
    decreases events.len(),
{
    if events.len() > 0 {
        lemma_closed_is_terminal(spec_step(session, events[0]).0, events.drop_first());
    }
    assert forall|at: int| 0 <= at < events.len() implies #[trigger] spec_actions(
        session,
        events,
    )[at] == ActionView::Close(Outcome::Failed(SessionError::Transport)) by {
        lemma_actions_need_state(session, events, at);
    }
}

/// A session moves forward only: a step leads to the next state in the
/// order of the states or to `Closed`, but that the relay stays in
/// `Relaying` until its second direction ends.
pub proof fn lemma_step_moves_forward(session: SessionView, event: EventView)
    ensures
        ({
            let next = spec_step(session, event).0;
            ||| next.state == SessionState::Closed
            ||| next.state.spec_rank() == session.state.spec_rank() + 1
            ||| next.state == SessionState::Relaying && session.state == SessionState::Relaying
        }),
{
}

/// The reply comes before the relay: a session enters `Relaying` by the one
/// step that sends the reply "succeeded" with the endpoint that the driver
/// reported.
pub proof fn lemma_relay_follows_reply(session: SessionView, event: EventView)
    requires
        session.state != SessionState::Relaying,
        spec_step(session, event).0.state == SessionState::Relaying,
    ensures
        session.state == SessionState::Connecting,
        event is Connected,
        spec_step(session, event) == (
            spec_at(SessionState::Relaying),
            ActionView::SendAndRelay(
                spec_encode_reply(ReplyStatus::Succeeded, Some(event->Connected_0)),
            ),
        ),
        spec_encode_reply(ReplyStatus::Succeeded, Some(event->Connected_0))[1] == 0x00,
{
}

/// A failure is the last word: a step that sends bytes and leaves the
/// session open sends the selection of "no authentication required" or the
/// reply "succeeded"; whatever else is sent closes the session.
pub proof fn lemma_failure_is_last_word(session: SessionView, event: EventView)
    requires
        spec_step(session, event).1.sent() is Some,
        spec_step(session, event).0.state != SessionState::Closed,
    ensures
        ({
            ||| spec_step(session, event) == (
                spec_at(SessionState::AwaitingRequest),
                ActionView::SendAndReceive(
                    spec_encode_method_selection(Some(AuthMethod::NoAuthenticationRequired)),
                    FrameKind::Request,
                ),
            )
            ||| spec_step(session, event) == (
                spec_at(SessionState::Relaying),
                ActionView::SendAndRelay(
                    spec_encode_reply(ReplyStatus::Succeeded, Some(event->Connected_0)),
                ),
            )
        }),
{
    if session.state == SessionState::Negotiating && event is Frame {
        let bytes = event->Frame_0;
        if spec_decode_greeting(bytes) is Ok {
            lemma_server_selection(spec_decode_greeting(bytes)->Ok_0.methods);
        }
    }
}

/// A failed attempt to connect is reported once: the session answers it
/// with the reply that carries the status of the failure, which is never
/// "succeeded", and closes without relaying.
pub proof fn lemma_connect_failure_is_reported(failure: ConnectFailure)
    ensures
        spec_step(spec_at(SessionState::Connecting), EventView::ConnectFailed(failure)) == (
            spec_at(SessionState::Closed),
            ActionView::SendAndClose(
                spec_encode_reply(failure.spec_reply_status(), None),
                Outcome::Failed(SessionError::Connect(failure.spec_reply_status())),
            ),
        ),
        spec_encode_reply(failure.spec_reply_status(), None)[1]
            == failure.spec_reply_status().spec_code(),
        failure.spec_reply_status() != ReplyStatus::Succeeded,
{
}

/// The relay ends when both directions have ended, and not before: the end
/// of the first direction half-closes it and leaves the session relaying;
/// the end of the other half-closes that one too and completes the
/// session, whichever of the two ended first.
pub proof fn lemma_relay_waits_for_both(first: Direction, second: Direction)
    requires
        first != second,
    ensures
        spec_step(spec_at(SessionState::Relaying), EventView::DirectionEnded(first)) == (
            SessionView { state: SessionState::Relaying, ended: Some(first) },
            ActionView::HalfClose(first),
        ),
        spec_step(
            SessionView { state: SessionState::Relaying, ended: Some(first) },
            EventView::DirectionEnded(second),
        ) == (spec_at(SessionState::Closed), ActionView::HalfCloseAndClose(second)),
        spec_run(
            spec_at(SessionState::Relaying),
            seq![EventView::DirectionEnded(first), EventView::DirectionEnded(second)],
        ) == spec_at(SessionState::Closed),
{
    let events = seq![EventView::DirectionEnded(first), EventView::DirectionEnded(second)];
    let middle = SessionView { state: SessionState::Relaying, ended: Some(first) };
    assert(events.drop_first() =~= seq![EventView::DirectionEnded(second)]);
    assert(events.drop_first().drop_first() =~= Seq::<EventView>::empty());
    assert(spec_run(spec_at(SessionState::Closed), events.drop_first().drop_first()) == spec_at(
        SessionState::Closed,
    ));
    assert(spec_run(middle, events.drop_first()) == spec_at(SessionState::Closed));
}

/// What an action in a run tells of the state that the run began in: a
/// request for a connection comes only from a session that has not yet left
/// `AwaitingRequest`, a reply only from one that has not yet left
/// `Connecting`, and a closed session answers with nothing but the same
/// failure. There is one action for each event.
pub proof fn lemma_actions_need_state(session: SessionView, events: Seq<EventView>, at: int)
    requires
        0 <= at < events.len(),
    ensures
        spec_actions(session, events).len() == events.len(),
        spec_actions(session, events)[at] is Connect ==> session.state.spec_rank() <= 2,
        spec_actions(session, events)[at].is_reply() ==> session.state.spec_rank() <= 3,
        session.state == SessionState::Closed ==> spec_actions(session, events)[at]
            == spec_fail().1,
    decreases events.len(),
{
    let next = spec_step(session, events[0]).0;
    let rest = events.drop_first();
    lemma_actions_len(next, rest);
    lemma_step_moves_forward(session, events[0]);
    if at > 0 {
        lemma_actions_need_state(next, rest, at - 1);
    }
}

/// There is one action for each event.
pub proof fn lemma_actions_len(session: SessionView, events: Seq<EventView>)
    ensures
        spec_actions(session, events).len() == events.len(),
    decreases events.len(),
{
    if events.len() > 0 {
        lemma_actions_len(spec_step(session, events[0]).0, events.drop_first());
    }
}

/// Of any two actions in the run of a session, whatever the events: they
/// are not both requests for a connection; they are not both replies; no
/// connection is asked for after a reply; and after an action that ends the
/// session nothing is sent or asked for any more.
pub proof fn lemma_one_connection_one_reply(
    session: SessionView,
    events: Seq<EventView>,
    earlier: int,
    later: int,
)
    requires
        0 <= earlier < later < events.len(),
    ensures
        ({
            let actions = spec_actions(session, events);
            &&& !(actions[earlier] is Connect && actions[later] is Connect)
            &&& !(actions[earlier].is_reply() && actions[later].is_reply())
            &&& actions[earlier].is_reply() ==> !(actions[later] is Connect)
            &&& actions[earlier].closes() ==> actions[later] == ActionView::Close(
                Outcome::Failed(SessionError::Transport),
            )
        }),
    decreases events.len(),
{
    let next = spec_step(session, events[0]).0;
    let rest = events.drop_first();
    lemma_actions_len(next, rest);
    if earlier == 0 {
        lemma_actions_need_state(next, rest, later - 1);
    } else {
        lemma_one_connection_one_reply(next, rest, earlier - 1, later - 1);
    }
}

} // verus!
