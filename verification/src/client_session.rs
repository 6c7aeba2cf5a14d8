use vstd::prelude::*;
use vstd::string::*;

use crate::client_registry::{client_active_view, WebsocketClient};
use crate::ids::uuid_parse;
use crate::client_events::{
    ClientErrorKind, ClientEventView, WebsocketClientCloseConnectionEvent, WebsocketClientError,
    WebsocketClientInboundEvent,
};

verus! {

/// Where the connection of a client stands.
#[derive(Clone, Copy, Debug, PartialEq, Eq)]
pub enum ClientSessionState {
    /// The opening handshake has not finished yet.
    Connecting,
    /// The connection is up and its loop runs.
    Open,
    /// The connection is over; the client has been unregistered.
    Closed,
}

/// A frame received from the server, by kind.
#[derive(Clone, Debug, PartialEq, Eq)]
pub enum ReceivedFrame {
    Text(String),
    Binary,
    Ping,
    Pong,
    Close,
    Frame,
}

/// What the host reports to the connection of a client.
#[derive(Clone, Debug, PartialEq, Eq)]
pub enum ClientSessionInput {
    /// The opening handshake finished.
    HandshakeCompleted,
    /// The handshake request could not be built, or the handshake failed.
    ConnectFailed(WebsocketClientError),
    /// A frame arrived from the server.
    Received(ReceivedFrame),
    /// Reading from the server failed, with this message.
    ReceiveFailed(String),
    /// The stream from the server yielded nothing.
    ReceiverIdle,
    /// The plugin asked for the connection to close.
    CloseRequested(WebsocketClientCloseConnectionEvent),
    /// The channel of close requests yielded nothing.
    CloseChannelIdle,
    /// The plugin asked for a text to be sent.
    Outbound(String),
    /// The channel of outbound texts yielded nothing.
    OutboundIdle,
    /// Sending a frame to the server failed, with this message.
    SendFailed(String),
}

/// What the host is to do for the connection of a client, in order.
#[derive(Clone, Debug, PartialEq, Eq)]
pub enum ClientSessionAction {
    /// Report an event to Lua.
    Emit(WebsocketClientInboundEvent),
    /// Send a text frame to the server.
    SendText(String),
    /// Send a close frame to the server.
    SendClose,
    /// Remove the client from the registry: its connection is over.
    Unregister,
}

/// An action of a client connection, with its texts as character sequences.
pub enum ClientActionView {
    Emit(ClientEventView),
    SendText(Seq<char>),
    SendClose,
    Unregister,
}

impl View for ClientSessionAction {
    type V = ClientActionView;

    open spec fn view(&self) -> ClientActionView {
        match self {
            ClientSessionAction::Emit(e) => ClientActionView::Emit(e@),
            ClientSessionAction::SendText(t) => ClientActionView::SendText(t@),
            ClientSessionAction::SendClose => ClientActionView::SendClose,
            ClientSessionAction::Unregister => ClientActionView::Unregister,
        }
    }
}

/// The message of a receive error for a binary frame.
pub open spec fn binary_unsupported() -> Seq<char> {
    "Binary data is not supported"@
}

/// One step of the connection of a client: the next state, and what the host
/// is to do, in order.
///
/// Before the handshake finishes only its outcome counts. While open, a text
/// frame is reported as a new message, a binary frame as a receive error,
/// a close frame ends the connection, and ping, pong and raw frames are
/// passed over; a failed read is reported as a receive error; a graceful
/// close request sends a close frame and waits for the server's, a forceful
/// one ends the connection at once; an outbound text is sent; a failed send
/// is reported as a connection error. Ending the connection reports
/// `Disconnected` and unregisters the client; a failed connection reports
/// its error and unregisters the client. A closed connection does nothing.
pub open spec fn client_session_next(state: ClientSessionState, input: ClientSessionInput) -> (
    ClientSessionState,
    Seq<ClientActionView>,
) {
    match state {
        ClientSessionState::Connecting => match input {
            ClientSessionInput::HandshakeCompleted => (
                ClientSessionState::Open,
                seq![ClientActionView::Emit(ClientEventView::Connected)],
            ),
            ClientSessionInput::ConnectFailed(e) => (
                ClientSessionState::Closed,
                seq![
                    ClientActionView::Emit(ClientEventView::Error(e@.0, e@.1)),
                    ClientActionView::Unregister,
                ],
            ),
            _ => (ClientSessionState::Connecting, seq![]),
        },
        ClientSessionState::Open => match input {
            ClientSessionInput::Received(frame) => match frame {
                ReceivedFrame::Text(data) => (
                    ClientSessionState::Open,
                    seq![ClientActionView::Emit(ClientEventView::NewMessage(data@))],
                ),
                ReceivedFrame::Binary => (
                    ClientSessionState::Open,
                    seq![
                        ClientActionView::Emit(
                            ClientEventView::Error(ClientErrorKind::ReceiveMessage, binary_unsupported()),
                        ),
                    ],
                ),
                ReceivedFrame::Close => (ClientSessionState::Closed, closing_actions()),
                _ => (ClientSessionState::Open, seq![]),
            },
            ClientSessionInput::ReceiveFailed(m) => (
                ClientSessionState::Open,
                seq![
                    ClientActionView::Emit(ClientEventView::Error(ClientErrorKind::ReceiveMessage, m@)),
                ],
            ),
            ClientSessionInput::CloseRequested(kind) => match kind {
                WebsocketClientCloseConnectionEvent::Graceful => (
                    ClientSessionState::Open,
                    seq![ClientActionView::SendClose],
                ),
                WebsocketClientCloseConnectionEvent::Forceful => (
                    ClientSessionState::Closed,
                    closing_actions(),
                ),
            },
            ClientSessionInput::Outbound(text) => (
                ClientSessionState::Open,
                seq![ClientActionView::SendText(text@)],
            ),
            ClientSessionInput::SendFailed(m) => (
                ClientSessionState::Open,
                seq![
                    ClientActionView::Emit(ClientEventView::Error(ClientErrorKind::Connection, m@)),
                ],
            ),
            _ => (ClientSessionState::Open, seq![]),
        },
        ClientSessionState::Closed => (ClientSessionState::Closed, seq![]),
    }
}

/// What ending an open connection does: report `Disconnected`, then
/// unregister the client.
pub open spec fn closing_actions() -> Seq<ClientActionView> {
    seq![
        ClientActionView::Emit(ClientEventView::Disconnected),
        ClientActionView::Unregister,
    ]
}

} // verus!

verus! {

/// The actions of a list, as views.
pub open spec fn client_actions_view(actions: Seq<ClientSessionAction>) -> Seq<ClientActionView> {
    actions.map_values(|a: ClientSessionAction| a@)
}

fn one_action(a: ClientSessionAction) -> (v: Vec<ClientSessionAction>)
    ensures
        client_actions_view(v@) == seq![a@],
{
    let mut v: Vec<ClientSessionAction> = Vec::new();
    v.push(a);
    proof {
        assert(client_actions_view(v@) =~= seq![a@]);
    }
    v
}

fn closing() -> (v: Vec<ClientSessionAction>)
    ensures
        client_actions_view(v@) == closing_actions(),
{
    let mut v: Vec<ClientSessionAction> = Vec::new();
    v.push(ClientSessionAction::Emit(WebsocketClientInboundEvent::Disconnected));
    v.push(ClientSessionAction::Unregister);
    proof {
        assert(client_actions_view(v@) =~= closing_actions());
    }
    v
}

/// Runs one step of the connection of a client, as `client_session_next`
/// describes it.
pub fn client_session_step(state: ClientSessionState, input: ClientSessionInput) -> (r: (
    ClientSessionState,
    Vec<ClientSessionAction>,
))
    ensures
        r.0 == client_session_next(state, input).0,
        client_actions_view(r.1@) == client_session_next(state, input).1,
{
    let ghost spec_result = client_session_next(state, input);
    match state {
        ClientSessionState::Connecting => match input {
            ClientSessionInput::HandshakeCompleted => (
                ClientSessionState::Open,
                one_action(ClientSessionAction::Emit(WebsocketClientInboundEvent::Connected)),
            ),
            ClientSessionInput::ConnectFailed(e) => {
                let mut v: Vec<ClientSessionAction> = Vec::new();
                v.push(ClientSessionAction::Emit(WebsocketClientInboundEvent::Error(e)));
                v.push(ClientSessionAction::Unregister);
                proof {
                    assert(client_actions_view(v@) =~= spec_result.1);
                }
                (ClientSessionState::Closed, v)
            },
            _ => {
                let v: Vec<ClientSessionAction> = Vec::new();
                proof {
                    assert(client_actions_view(v@) =~= spec_result.1);
                }
                (ClientSessionState::Connecting, v)
            },
        },
        ClientSessionState::Open => match input {
            ClientSessionInput::Received(frame) => match frame {
                ReceivedFrame::Text(data) => (
                    ClientSessionState::Open,
                    one_action(
                        ClientSessionAction::Emit(WebsocketClientInboundEvent::NewMessage(data)),
                    ),
                ),
                ReceivedFrame::Binary => {
                    proof {
                        reveal_strlit("Binary data is not supported");
                    }
                    let e = WebsocketClientError::ReceiveMessageError(
                        String::from_str("Binary data is not supported"),
                    );
                    (
                        ClientSessionState::Open,
                        one_action(ClientSessionAction::Emit(WebsocketClientInboundEvent::Error(e))),
                    )
                },
                ReceivedFrame::Close => (ClientSessionState::Closed, closing()),
                _ => {
                    let v: Vec<ClientSessionAction> = Vec::new();
                    proof {
                        assert(client_actions_view(v@) =~= spec_result.1);
                    }
                    (ClientSessionState::Open, v)
                },
            },
            ClientSessionInput::ReceiveFailed(m) => (
                ClientSessionState::Open,
                one_action(
                    ClientSessionAction::Emit(
                        WebsocketClientInboundEvent::Error(
                            WebsocketClientError::ReceiveMessageError(m),
                        ),
                    ),
                ),
            ),
            ClientSessionInput::CloseRequested(kind) => match kind {
                WebsocketClientCloseConnectionEvent::Graceful => (
                    ClientSessionState::Open,
                    one_action(ClientSessionAction::SendClose),
                ),
                WebsocketClientCloseConnectionEvent::Forceful => (
                    ClientSessionState::Closed,
                    closing(),
                ),
            },
            ClientSessionInput::Outbound(text) => (
                ClientSessionState::Open,
                one_action(ClientSessionAction::SendText(text)),
            ),
            ClientSessionInput::SendFailed(m) => (
                ClientSessionState::Open,
                one_action(
                    ClientSessionAction::Emit(
                        WebsocketClientInboundEvent::Error(WebsocketClientError::ConnectionError(m)),
                    ),
                ),
            ),
            _ => {
                let v: Vec<ClientSessionAction> = Vec::new();
                proof {
                    assert(client_actions_view(v@) =~= spec_result.1);
                }
                (ClientSessionState::Open, v)
            },
        },
        ClientSessionState::Closed => {
            let v: Vec<ClientSessionAction> = Vec::new();
            proof {
                assert(client_actions_view(v@) =~= spec_result.1);
            }
            (ClientSessionState::Closed, v)
        },
    }
}

} // verus!

verus! {

/// The connection of a client fed `inputs` in turn from `state`: the state
/// it ends in and everything it asked the host to do, in order.
pub open spec fn client_session_run(state: ClientSessionState, inputs: Seq<ClientSessionInput>) -> (
    ClientSessionState,
    Seq<ClientActionView>,
)
    decreases inputs.len(),
{
    if inputs.len() == 0 {
        (state, seq![])
    } else {
        let before = client_session_run(state, inputs.drop_last());
        let step = client_session_next(before.0, inputs.last());
        (step.0, before.1 + step.1)
    }
}

/// An action that neither opens nor ends the connection: a new message, a
/// receive or connection error report, or a frame to send.
pub open spec fn is_quiet(a: ClientActionView) -> bool {
    match a {
        ClientActionView::Emit(ClientEventView::NewMessage(_)) => true,
        ClientActionView::Emit(ClientEventView::Error(kind, _)) => kind
            == ClientErrorKind::ReceiveMessage || kind == ClientErrorKind::Connection,
        ClientActionView::SendText(_) => true,
        ClientActionView::SendClose => true,
        _ => false,
    }
}

/// Every action of the list is quiet.
pub open spec fn all_quiet(actions: Seq<ClientActionView>) -> bool {
    forall|i: int| 0 <= i < actions.len() ==> is_quiet(#[trigger] actions[i])
}

/// The shape of everything a connection has asked for, by the state it is
/// in: nothing while it connects; once open, `Connected` first and then
/// only quiet actions; once closed, either an error report and the
/// unregistering (the connection never opened), or `Connected`, quiet
/// actions, `Disconnected` and the unregistering, in that order.
pub open spec fn client_lifecycle(state: ClientSessionState, actions: Seq<ClientActionView>) -> bool {
    match state {
        ClientSessionState::Connecting => actions.len() == 0,
        ClientSessionState::Open => {
            &&& actions.len() >= 1
            &&& actions[0] == ClientActionView::Emit(ClientEventView::Connected)
            &&& all_quiet(actions.subrange(1, actions.len() as int))
        },
        ClientSessionState::Closed => {
            ||| {
                &&& actions.len() == 2
                &&& actions[0] matches ClientActionView::Emit(ClientEventView::Error(_, _))
                &&& actions[1] == ClientActionView::Unregister
            }
            ||| {
                &&& actions.len() >= 3
                &&& actions[0] == ClientActionView::Emit(ClientEventView::Connected)
                &&& actions[actions.len() - 2] == ClientActionView::Emit(
                    ClientEventView::Disconnected,
                )
                &&& actions[actions.len() - 1] == ClientActionView::Unregister
                &&& all_quiet(actions.subrange(1, actions.len() - 2))
            }
        },
    }
}

/// A closed connection stays closed and asks for nothing more.
pub proof fn law_closed_session_is_final(input: ClientSessionInput)
    ensures
        client_session_next(ClientSessionState::Closed, input) == (
            ClientSessionState::Closed,
            Seq::<ClientActionView>::empty(),
        ),
{
}

/// Whatever the host reports, a client connection reports `Connected` at
/// most once and first, in between reports only new messages and receive or
/// connection errors, reports `Disconnected` at most once and only after
/// `Connected`, unregisters the client at most once and as its very last
/// action, and reports nothing after `Disconnected`.
pub proof fn law_client_session_lifecycle(inputs: Seq<ClientSessionInput>)
    ensures
        client_lifecycle(
            client_session_run(ClientSessionState::Connecting, inputs).0,
            client_session_run(ClientSessionState::Connecting, inputs).1,
        ),
    decreases inputs.len(),
{
    if inputs.len() > 0 {
        law_client_session_lifecycle(inputs.drop_last());
        let before = client_session_run(ClientSessionState::Connecting, inputs.drop_last());
        let step = client_session_next(before.0, inputs.last());
        let acts = before.1 + step.1;
        match before.0 {
            ClientSessionState::Connecting => {
                assert(acts =~= step.1);
            },
            ClientSessionState::Open => {
                let n = before.1.len() as int;
                if step.0 == ClientSessionState::Open {
                    assert forall|i: int| 0 <= i < acts.len() - 1 implies is_quiet(
                        #[trigger] acts.subrange(1, acts.len() as int)[i],
                    ) by {
                        if i + 1 < n {
                            assert(acts.subrange(1, acts.len() as int)[i] == before.1.subrange(
                                1,
                                n,
                            )[i]);
                        }
                    }
                } else if step.0 == ClientSessionState::Closed {
                    assert(step.1 == closing_actions());
                    assert forall|i: int| 0 <= i < acts.len() - 3 implies is_quiet(
                        #[trigger] acts.subrange(1, acts.len() - 2)[i],
                    ) by {
                        assert(acts.subrange(1, acts.len() - 2)[i] == before.1.subrange(1, n)[i]);
                    }
                }
            },
            ClientSessionState::Closed => {
                assert(acts =~= before.1);
            },
        }
    }
}

} // verus!

verus! {

/// A client whose connection is over, whether it ever opened or not, asked
/// as its last action to be unregistered; doing so
/// (`WebsocketClientRegistry::remove` under its id) makes the client
/// reported inactive under the text of its id, and leaves every other client
/// as it was.
pub proof fn law_finished_client_is_unregistered<H>(
    clients: Map<u128, WebsocketClient<H>>,
    id: u128,
    text: Seq<char>,
    inputs: Seq<ClientSessionInput>,
)
    requires
        client_session_run(ClientSessionState::Connecting, inputs).0 == ClientSessionState::Closed,
        uuid_parse(text) == Some(id),
    ensures
        client_session_run(ClientSessionState::Connecting, inputs).1.len() > 0,
        client_session_run(ClientSessionState::Connecting, inputs).1.last()
            == ClientActionView::Unregister,
        client_active_view(clients.remove(id), text) == Some(false),
        forall|k: u128|
            k != id ==> (#[trigger] clients.remove(id).contains_key(k) == clients.contains_key(k)),
{
    law_client_session_lifecycle(inputs);
}

} // verus!

verus! {

/// The texts of a list of inputs that are all outbound texts.
pub open spec fn outbound_texts(inputs: Seq<ClientSessionInput>) -> Seq<Seq<char>> {
    inputs.map_values(
        |i: ClientSessionInput|
            match i {
                ClientSessionInput::Outbound(t) => t@,
                _ => Seq::<char>::empty(),
            },
    )
}

/// An outbound text handed to an open connection is sent to the server as
/// one text frame holding exactly that text, and the connection stays open.
pub proof fn law_open_client_sends_outbound_text_unchanged(text: String)
    ensures
        client_session_next(ClientSessionState::Open, ClientSessionInput::Outbound(text)).0
            == ClientSessionState::Open,
        client_session_next(ClientSessionState::Open, ClientSessionInput::Outbound(text)).1.len()
            == 1,
        client_session_next(ClientSessionState::Open, ClientSessionInput::Outbound(text)).1[0]
            == ClientActionView::SendText(text@),
{
}

/// Texts handed one after another to an open connection are sent to the
/// server one frame each, in the order they were given, each exactly as
/// given; the connection stays open.
pub proof fn law_open_client_sends_outbound_texts_in_order(inputs: Seq<ClientSessionInput>)
    requires
        forall|i: int| 0 <= i < inputs.len() ==> (#[trigger] inputs[i]) is Outbound,
    ensures
        client_session_run(ClientSessionState::Open, inputs).0 == ClientSessionState::Open,
        client_session_run(ClientSessionState::Open, inputs).1.len() == inputs.len(),
        forall|i: int|
            0 <= i < inputs.len() ==> #[trigger] client_session_run(
                ClientSessionState::Open,
                inputs,
            ).1[i] == ClientActionView::SendText(outbound_texts(inputs)[i]),
    decreases inputs.len(),
{
    if inputs.len() > 0 {
        let rest = inputs.drop_last();
        assert forall|i: int| 0 <= i < rest.len() implies (#[trigger] rest[i]) is Outbound by {
            assert(rest[i] == inputs[i]);
        }
        law_open_client_sends_outbound_texts_in_order(rest);
        let before = client_session_run(ClientSessionState::Open, rest);
        let last = inputs.last();
        assert(inputs[inputs.len() - 1] is Outbound);
        let acts = client_session_run(ClientSessionState::Open, inputs).1;
        assert forall|i: int| 0 <= i < inputs.len() implies #[trigger] acts[i]
            == ClientActionView::SendText(outbound_texts(inputs)[i]) by {
            if i < rest.len() {
                assert(outbound_texts(rest)[i] == outbound_texts(inputs)[i]);
            }
        }
    }
}

} // verus!
