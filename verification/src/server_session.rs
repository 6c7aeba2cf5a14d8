use vstd::prelude::*;
use vstd::string::*;

use crate::client_session::ReceivedFrame;
use crate::server_events::{
    ServerErrorKind, ServerErrorView, ServerEventView, WebsocketServerCloseConnectionEvent,
    WebsocketServerError, WebsocketServerInboundEvent,
};
use crate::server_registry::WebsocketServer;
use crate::server_state::{fanout, ServerState};

verus! {

/// Where one accepted connection of a server stands.
#[derive(Clone, Copy, Debug, PartialEq, Eq)]
pub enum ServerConnectionState {
    /// The opening handshake has not finished yet.
    Handshaking,
    /// The connection is up and its loop runs.
    Open,
    /// The connection's loop is over.
    Closed,
}

/// What the host reports to one accepted connection of a server.
#[derive(Clone, Debug, PartialEq, Eq)]
pub enum ServerConnectionInput {
    /// The opening handshake finished.
    HandshakeCompleted,
    /// The opening handshake failed.
    HandshakeFailed,
    /// A frame arrived from the peer.
    Received(ReceivedFrame),
    /// Reading from the peer failed, with this message.
    ReceiveFailed(String),
    /// The stream from the peer ended.
    ReceiverEnded,
    /// The server asked the connection to close.
    CloseRequested(WebsocketServerCloseConnectionEvent),
    /// The channel of close requests was dropped.
    CloseChannelEnded,
    /// A text is to be sent to the peer.
    Outbound(String),
    /// The channel of outbound texts was dropped.
    OutboundChannelEnded,
    /// Sending a frame to the peer failed.
    SendFailed,
}

/// What the host is to do for one accepted connection, in order; the host
/// stops at the first action that fails.
#[derive(Clone, Debug, PartialEq, Eq)]
pub enum ServerConnectionAction {
    /// Report an event to Lua.
    Emit(WebsocketServerInboundEvent),
    /// Queue every message broadcast so far for this connection and register
    /// it with the server (`ServerState::admit_client`).
    Admit,
    /// Send a text frame to the peer.
    SendText(String),
    /// Send a close frame to the peer.
    SendClose,
}

/// An action of an accepted connection, with its texts as character
/// sequences.
pub enum ServerConnectionActionView {
    Emit(ServerEventView),
    Admit,
    SendText(Seq<char>),
    SendClose,
}

impl View for ServerConnectionAction {
    type V = ServerConnectionActionView;

    open spec fn view(&self) -> ServerConnectionActionView {
        match self {
            ServerConnectionAction::Emit(e) => ServerConnectionActionView::Emit(e@),
            ServerConnectionAction::Admit => ServerConnectionActionView::Admit,
            ServerConnectionAction::SendText(t) => ServerConnectionActionView::SendText(t@),
            ServerConnectionAction::SendClose => ServerConnectionActionView::SendClose,
        }
    }
}

/// The actions of a list, as views.
pub open spec fn connection_actions_view(actions: Seq<ServerConnectionAction>) -> Seq<
    ServerConnectionActionView,
> {
    actions.map_values(|a: ServerConnectionAction| a@)
}

/// The report of a receive error of connection `id` with message `m`.
pub open spec fn receive_error(id: u128, m: Seq<char>) -> ServerConnectionActionView {
    ServerConnectionActionView::Emit(
        ServerEventView::Error(
            ServerErrorView { kind: ServerErrorKind::ReceiveMessage, client_id: Some(id), message: m },
        ),
    )
}

/// One step of the accepted connection `id`: the next state, and what the
/// host is to do, in order.
///
/// When the handshake finishes the connection reports `ClientConnected` and
/// is admitted (it gets every message broadcast so far, then is
/// registered); a failed handshake ends it silently. While open, a text
/// frame is reported as a new message, a binary or raw frame as a receive
/// error, and ping, pong and close frames are passed over (the WebSocket
/// layer answers them); a failed read is reported as a receive error; a
/// graceful close request sends a close frame and ends the connection, a
/// forceful one ends it at once, and either reports `ClientDisconnected`;
/// an outbound text is sent. The end of the peer's stream or of a channel,
/// and a failed send, end the connection without a report. A closed
/// connection does nothing.
pub open spec fn server_connection_next(
    id: u128,
    state: ServerConnectionState,
    input: ServerConnectionInput,
) -> (ServerConnectionState, Seq<ServerConnectionActionView>) {
    match state {
        ServerConnectionState::Handshaking => match input {
            ServerConnectionInput::HandshakeCompleted => (
                ServerConnectionState::Open,
                seq![
                    ServerConnectionActionView::Emit(ServerEventView::ClientConnected(id)),
                    ServerConnectionActionView::Admit,
                ],
            ),
            ServerConnectionInput::HandshakeFailed => (ServerConnectionState::Closed, seq![]),
            _ => (ServerConnectionState::Handshaking, seq![]),
        },
        ServerConnectionState::Open => match input {
            ServerConnectionInput::Received(frame) => match frame {
                ReceivedFrame::Text(data) => (
                    ServerConnectionState::Open,
                    seq![ServerConnectionActionView::Emit(ServerEventView::NewMessage(id, data@))],
                ),
                ReceivedFrame::Binary => (
                    ServerConnectionState::Open,
                    seq![receive_error(id, "Binary data handling is not supported"@)],
                ),
                ReceivedFrame::Frame => (
                    ServerConnectionState::Open,
                    seq![receive_error(id, "Raw frame data handling is not supported"@)],
                ),
                _ => (ServerConnectionState::Open, seq![]),
            },
            ServerConnectionInput::ReceiveFailed(m) => (
                ServerConnectionState::Open,
                seq![receive_error(id, m@)],
            ),
            ServerConnectionInput::CloseRequested(kind) => match kind {
                WebsocketServerCloseConnectionEvent::Graceful => (
                    ServerConnectionState::Closed,
                    seq![
                        ServerConnectionActionView::SendClose,
                        ServerConnectionActionView::Emit(ServerEventView::ClientDisconnected(id)),
                    ],
                ),
                WebsocketServerCloseConnectionEvent::Forceful => (
                    ServerConnectionState::Closed,
                    seq![ServerConnectionActionView::Emit(ServerEventView::ClientDisconnected(id))],
                ),
            },
            ServerConnectionInput::Outbound(text) => (
                ServerConnectionState::Open,
                seq![ServerConnectionActionView::SendText(text@)],
            ),
            ServerConnectionInput::HandshakeCompleted => (ServerConnectionState::Open, seq![]),
            ServerConnectionInput::HandshakeFailed => (ServerConnectionState::Open, seq![]),
            _ => (ServerConnectionState::Closed, seq![]),
        },
        ServerConnectionState::Closed => (ServerConnectionState::Closed, seq![]),
    }
}

fn one_connection_action(a: ServerConnectionAction) -> (v: Vec<ServerConnectionAction>)
    ensures
        connection_actions_view(v@) == seq![a@],
{
    let mut v: Vec<ServerConnectionAction> = Vec::new();
    v.push(a);
    proof {
        assert(connection_actions_view(v@) =~= seq![a@]);
    }
    v
}

fn two_connection_actions(a: ServerConnectionAction, b: ServerConnectionAction) -> (v: Vec<
    ServerConnectionAction,
>)
    ensures
        connection_actions_view(v@) == seq![a@, b@],
{
    let mut v: Vec<ServerConnectionAction> = Vec::new();
    v.push(a);
    v.push(b);
    proof {
        assert(connection_actions_view(v@) =~= seq![a@, b@]);
    }
    v
}

fn no_connection_actions() -> (v: Vec<ServerConnectionAction>)
    ensures
        connection_actions_view(v@) == Seq::<ServerConnectionActionView>::empty(),
{
    let v: Vec<ServerConnectionAction> = Vec::new();
    proof {
        assert(connection_actions_view(v@) =~= Seq::<ServerConnectionActionView>::empty());
    }
    v
}

/// Runs one step of the accepted connection `id`, as
/// `server_connection_next` describes it.
pub fn server_connection_step(
    id: u128,
    state: ServerConnectionState,
    input: ServerConnectionInput,
) -> (r: (ServerConnectionState, Vec<ServerConnectionAction>))
    ensures
        r.0 == server_connection_next(id, state, input).0,
        connection_actions_view(r.1@) == server_connection_next(id, state, input).1,
{
    proof {
        reveal_strlit("Binary data handling is not supported");
        reveal_strlit("Raw frame data handling is not supported");
    }
    match state {
        ServerConnectionState::Handshaking => match input {
            ServerConnectionInput::HandshakeCompleted => (
                ServerConnectionState::Open,
                two_connection_actions(
                    ServerConnectionAction::Emit(WebsocketServerInboundEvent::ClientConnected(id)),
                    ServerConnectionAction::Admit,
                ),
            ),
            ServerConnectionInput::HandshakeFailed => (
                ServerConnectionState::Closed,
                no_connection_actions(),
            ),
            _ => (ServerConnectionState::Handshaking, no_connection_actions()),
        },
        ServerConnectionState::Open => match input {
            ServerConnectionInput::Received(frame) => match frame {
                ReceivedFrame::Text(data) => (
                    ServerConnectionState::Open,
                    one_connection_action(
                        ServerConnectionAction::Emit(
                            WebsocketServerInboundEvent::NewMessage(id, data),
                        ),
                    ),
                ),
                ReceivedFrame::Binary => (
                    ServerConnectionState::Open,
                    one_connection_action(
                        ServerConnectionAction::Emit(
                            WebsocketServerInboundEvent::Error(
                                WebsocketServerError::ReceiveMessageError(
                                    id,
                                    String::from_str("Binary data handling is not supported"),
                                ),
                            ),
                        ),
                    ),
                ),
                ReceivedFrame::Frame => (
                    ServerConnectionState::Open,
                    one_connection_action(
                        ServerConnectionAction::Emit(
                            WebsocketServerInboundEvent::Error(
                                WebsocketServerError::ReceiveMessageError(
                                    id,
                                    String::from_str("Raw frame data handling is not supported"),
                                ),
                            ),
                        ),
                    ),
                ),
                _ => (ServerConnectionState::Open, no_connection_actions()),
            },
            ServerConnectionInput::ReceiveFailed(m) => (
                ServerConnectionState::Open,
                one_connection_action(
                    ServerConnectionAction::Emit(
                        WebsocketServerInboundEvent::Error(
                            WebsocketServerError::ReceiveMessageError(id, m),
                        ),
                    ),
                ),
            ),
            ServerConnectionInput::CloseRequested(kind) => match kind {
                WebsocketServerCloseConnectionEvent::Graceful => (
                    ServerConnectionState::Closed,
                    two_connection_actions(
                        ServerConnectionAction::SendClose,
                        ServerConnectionAction::Emit(
                            WebsocketServerInboundEvent::ClientDisconnected(id),
                        ),
                    ),
                ),
                WebsocketServerCloseConnectionEvent::Forceful => (
                    ServerConnectionState::Closed,
                    one_connection_action(
                        ServerConnectionAction::Emit(
                            WebsocketServerInboundEvent::ClientDisconnected(id),
                        ),
                    ),
                ),
            },
            ServerConnectionInput::Outbound(text) => (
                ServerConnectionState::Open,
                one_connection_action(ServerConnectionAction::SendText(text)),
            ),
            ServerConnectionInput::HandshakeCompleted => (
                ServerConnectionState::Open,
                no_connection_actions(),
            ),
            ServerConnectionInput::HandshakeFailed => (
                ServerConnectionState::Open,
                no_connection_actions(),
            ),
            _ => (ServerConnectionState::Closed, no_connection_actions()),
        },
        ServerConnectionState::Closed => (ServerConnectionState::Closed, no_connection_actions()),
    }
}

} // verus!

verus! {

/// The accepted connection `id` fed `inputs` in turn from `state`: the
/// state it ends in and everything it asked the host to do, in order.
pub open spec fn server_connection_run(
    id: u128,
    state: ServerConnectionState,
    inputs: Seq<ServerConnectionInput>,
) -> (ServerConnectionState, Seq<ServerConnectionActionView>)
    decreases inputs.len(),
{
    if inputs.len() == 0 {
        (state, seq![])
    } else {
        let before = server_connection_run(id, state, inputs.drop_last());
        let step = server_connection_next(id, before.0, inputs.last());
        (step.0, before.1 + step.1)
    }
}

/// An action of the open connection `id` that neither opens nor ends it:
/// a new message or a receive error that names `id`, or a frame to send.
pub open spec fn connection_quiet(id: u128, a: ServerConnectionActionView) -> bool {
    match a {
        ServerConnectionActionView::Emit(ServerEventView::NewMessage(c, _)) => c == id,
        ServerConnectionActionView::Emit(ServerEventView::Error(e)) => e.client_id == Some(id)
            && e.kind == ServerErrorKind::ReceiveMessage,
        ServerConnectionActionView::SendText(_) => true,
        ServerConnectionActionView::SendClose => true,
        _ => false,
    }
}

/// Every action of the list is quiet for connection `id`.
pub open spec fn connection_all_quiet(id: u128, actions: Seq<ServerConnectionActionView>) -> bool {
    forall|i: int| 0 <= i < actions.len() ==> connection_quiet(id, #[trigger] actions[i])
}

/// The shape of everything the accepted connection `id` has asked for, by
/// its state: nothing while it shakes hands; once open, `ClientConnected`,
/// the admission, then only quiet actions; once closed, either nothing (the
/// handshake failed) or what an open connection asks for, possibly followed
/// by `ClientDisconnected` as the very last action.
pub open spec fn connection_lifecycle(
    id: u128,
    state: ServerConnectionState,
    actions: Seq<ServerConnectionActionView>,
) -> bool {
    let opened = actions.len() >= 2 && actions[0] == ServerConnectionActionView::Emit(
        ServerEventView::ClientConnected(id),
    ) && actions[1] == ServerConnectionActionView::Admit;
    match state {
        ServerConnectionState::Handshaking => actions.len() == 0,
        ServerConnectionState::Open => opened && connection_all_quiet(
            id,
            actions.subrange(2, actions.len() as int),
        ),
        ServerConnectionState::Closed => {
            ||| actions.len() == 0
            ||| opened && connection_all_quiet(id, actions.subrange(2, actions.len() as int))
            ||| opened && actions.len() >= 3 && actions[actions.len() - 1]
                == ServerConnectionActionView::Emit(ServerEventView::ClientDisconnected(id))
                && connection_all_quiet(id, actions.subrange(2, actions.len() - 1))
        },
    }
}

/// Whatever the host reports, an accepted connection reports
/// `ClientConnected` first and at most once and is admitted right after it
/// (so every buffered message is queued before any later text), in between
/// reports only new messages and receive errors, reports
/// `ClientDisconnected` at most once and as its last action, and every event
/// it reports names this very connection.
pub proof fn law_server_connection_lifecycle(id: u128, inputs: Seq<ServerConnectionInput>)
    ensures
        connection_lifecycle(
            id,
            server_connection_run(id, ServerConnectionState::Handshaking, inputs).0,
            server_connection_run(id, ServerConnectionState::Handshaking, inputs).1,
        ),
    decreases inputs.len(),
{
    if inputs.len() > 0 {
        law_server_connection_lifecycle(id, inputs.drop_last());
        let before = server_connection_run(id, ServerConnectionState::Handshaking, inputs.drop_last());
        let step = server_connection_next(id, before.0, inputs.last());
        let acts = before.1 + step.1;
        match before.0 {
            ServerConnectionState::Handshaking => {
                assert(acts =~= step.1);
            },
            ServerConnectionState::Open => {
                let n = before.1.len() as int;
                assert forall|i: int| 2 <= i < n implies connection_quiet(id, #[trigger] acts[i]) by {
                    assert(acts[i] == before.1.subrange(2, n)[i - 2]);
                }
                assert forall|i: int| 0 <= i < step.1.len() - 1 implies connection_quiet(
                    id,
                    #[trigger] step.1[i],
                ) by {}
                if step.1.len() > 0 && step.1.last() == ServerConnectionActionView::Emit(
                    ServerEventView::ClientDisconnected(id),
                ) {
                    assert forall|i: int| 0 <= i < acts.len() - 3 implies connection_quiet(
                        id,
                        #[trigger] acts.subrange(2, acts.len() - 1)[i],
                    ) by {
                        assert(acts.subrange(2, acts.len() - 1)[i] == acts[i + 2]);
                        if i + 2 >= n {
                            assert(acts[i + 2] == step.1[i + 2 - n]);
                        }
                    }
                } else {
                    assert forall|i: int| 0 <= i < acts.len() - 2 implies connection_quiet(
                        id,
                        #[trigger] acts.subrange(2, acts.len() as int)[i],
                    ) by {
                        assert(acts.subrange(2, acts.len() as int)[i] == acts[i + 2]);
                        if i + 2 >= n {
                            assert(acts[i + 2] == step.1[i + 2 - n]);
                        }
                    }
                }
            },
            ServerConnectionState::Closed => {
                assert(acts =~= before.1);
            },
        }
    }
}

/// Where the accept loop of a server stands.
#[derive(Clone, Copy, Debug, PartialEq, Eq)]
pub enum ServerLoopState {
    Running,
    Stopped,
}

/// What the host reports to the accept loop of a server.
#[derive(Clone, Debug, PartialEq, Eq)]
pub enum ServerLoopInput {
    /// The listening socket could not be bound.
    BindFailed,
    /// A TCP connection was accepted.
    Accepted,
    /// The plugin asked the server to close.
    CloseRequested(WebsocketServerCloseConnectionEvent),
    /// The channel of close requests yielded nothing.
    CloseChannelIdle,
    /// The plugin broadcast a text.
    Broadcast(String),
    /// The channel of broadcasts yielded nothing.
    BroadcastIdle,
}

/// What the host is to do for the accept loop of a server, in order.
#[derive(Clone, Debug, PartialEq, Eq)]
pub enum ServerLoopAction {
    /// Start the handshake and loop of the accepted connection.
    SpawnConnection,
    /// Hand a text to the connection with this id.
    SendToClient(u128, String),
    /// Ask the connection with this id to close gracefully.
    TerminateClient(u128),
    /// Remove the server from the registry: it has stopped.
    Unregister,
}

/// An action of an accept loop, with its texts as character sequences.
pub enum ServerLoopActionView {
    SpawnConnection,
    SendToClient(u128, Seq<char>),
    TerminateClient(u128),
    Unregister,
}

impl View for ServerLoopAction {
    type V = ServerLoopActionView;

    open spec fn view(&self) -> ServerLoopActionView {
        match self {
            ServerLoopAction::SpawnConnection => ServerLoopActionView::SpawnConnection,
            ServerLoopAction::SendToClient(id, t) => ServerLoopActionView::SendToClient(*id, t@),
            ServerLoopAction::TerminateClient(id) => ServerLoopActionView::TerminateClient(*id),
            ServerLoopAction::Unregister => ServerLoopActionView::Unregister,
        }
    }
}

/// The actions of a list, as views.
pub open spec fn loop_actions_view(actions: Seq<ServerLoopAction>) -> Seq<ServerLoopActionView> {
    actions.map_values(|a: ServerLoopAction| a@)
}

/// The sends of a broadcast, as actions.
pub open spec fn broadcast_actions(order: Seq<u128>, message: Seq<char>) -> Seq<ServerLoopActionView> {
    fanout(order, message).map_values(
        |p: (u128, Seq<char>)| ServerLoopActionView::SendToClient(p.0, p.1),
    )
}

/// One step of the accept loop of a server whose accepted connections are
/// `order`: the next state, and what the host is to do, in order.
///
/// An accepted TCP connection is handed to a connection loop of its own; a
/// broadcast text goes to every accepted connection, oldest first; a
/// graceful close request asks every accepted connection to close
/// gracefully, oldest first, then stops the server, a forceful one stops it
/// at once, and a stopped server is unregistered. A socket that cannot be
/// bound stops the loop without unregistering the server. A stopped loop
/// does nothing.
pub open spec fn server_loop_next(order: Seq<u128>, state: ServerLoopState, input: ServerLoopInput) -> (
    ServerLoopState,
    Seq<ServerLoopActionView>,
) {
    match state {
        ServerLoopState::Running => match input {
            ServerLoopInput::BindFailed => (ServerLoopState::Stopped, seq![]),
            ServerLoopInput::Accepted => (
                ServerLoopState::Running,
                seq![ServerLoopActionView::SpawnConnection],
            ),
            ServerLoopInput::CloseRequested(kind) => match kind {
                WebsocketServerCloseConnectionEvent::Graceful => (
                    ServerLoopState::Stopped,
                    order.map_values(|id: u128| ServerLoopActionView::TerminateClient(id)).push(
                        ServerLoopActionView::Unregister,
                    ),
                ),
                WebsocketServerCloseConnectionEvent::Forceful => (
                    ServerLoopState::Stopped,
                    seq![ServerLoopActionView::Unregister],
                ),
            },
            ServerLoopInput::Broadcast(m) => (ServerLoopState::Running, broadcast_actions(order, m@)),
            _ => (ServerLoopState::Running, seq![]),
        },
        ServerLoopState::Stopped => (ServerLoopState::Stopped, seq![]),
    }
}

/// Runs one step of the accept loop of a server whose connections share
/// `shared`, as `server_loop_next` describes it. The shared state is only
/// read: a graceful close asks each connection to close and changes none.
pub fn server_loop_step<H>(
    shared: &ServerState<H>,
    state: ServerLoopState,
    input: ServerLoopInput,
) -> (r: (ServerLoopState, Vec<ServerLoopAction>))
    requires
        shared.wf(),
    ensures
        r.0 == server_loop_next(shared.order(), state, input).0,
        loop_actions_view(r.1@) == server_loop_next(shared.order(), state, input).1,
{
    let ghost spec_result = server_loop_next(shared.order(), state, input);
    let mut actions: Vec<ServerLoopAction> = Vec::new();
    match state {
        ServerLoopState::Running => match input {
            ServerLoopInput::BindFailed => {
                proof {
                    assert(loop_actions_view(actions@) =~= spec_result.1);
                }
                (ServerLoopState::Stopped, actions)
            },
            ServerLoopInput::Accepted => {
                actions.push(ServerLoopAction::SpawnConnection);
                proof {
                    assert(loop_actions_view(actions@) =~= spec_result.1);
                }
                (ServerLoopState::Running, actions)
            },
            ServerLoopInput::CloseRequested(kind) => match kind {
                WebsocketServerCloseConnectionEvent::Graceful => {
                    let ids = shared.broadcast_targets();
                    let mut i: usize = 0;
                    while i < ids.len()
                        invariant
                            i <= ids@.len(),
                            actions@.len() == i,
                            forall|j: int|
                                0 <= j < i ==> (#[trigger] actions@[j])@
                                    == ServerLoopActionView::TerminateClient(ids@[j]),
                        decreases ids@.len() - i,
                    {
                        actions.push(ServerLoopAction::TerminateClient(ids[i]));
                        i = i + 1;
                    }
                    actions.push(ServerLoopAction::Unregister);
                    proof {
                        assert(loop_actions_view(actions@) =~= spec_result.1);
                    }
                    (ServerLoopState::Stopped, actions)
                },
                WebsocketServerCloseConnectionEvent::Forceful => {
                    actions.push(ServerLoopAction::Unregister);
                    proof {
                        assert(loop_actions_view(actions@) =~= spec_result.1);
                    }
                    (ServerLoopState::Stopped, actions)
                },
            },
            ServerLoopInput::Broadcast(m) => {
                let ids = shared.broadcast_targets();
                let mut i: usize = 0;
                while i < ids.len()
                    invariant
                        i <= ids@.len(),
                        ids@ == shared.order(),
                        actions@.len() == i,
                        forall|j: int|
                            0 <= j < i ==> (#[trigger] actions@[j])@
                                == ServerLoopActionView::SendToClient(ids@[j], m@),
                    decreases ids@.len() - i,
                {
                    actions.push(ServerLoopAction::SendToClient(ids[i], m.clone()));
                    i = i + 1;
                }
                proof {
                    assert(loop_actions_view(actions@) =~= spec_result.1);
                }
                (ServerLoopState::Running, actions)
            },
            _ => {
                proof {
                    assert(loop_actions_view(actions@) =~= spec_result.1);
                }
                (ServerLoopState::Running, actions)
            },
        },
        ServerLoopState::Stopped => {
            proof {
                assert(loop_actions_view(actions@) =~= spec_result.1);
            }
            (ServerLoopState::Stopped, actions)
        },
    }
}

} // verus!

verus! {

/// The accept loop fed, in turn, the steps of `steps` from `state`: each
/// step is the accepted connections at that moment and what the host
/// reports. The result is the state it ends in and everything it asked the
/// host to do, in order.
pub open spec fn server_loop_run(
    state: ServerLoopState,
    steps: Seq<(Seq<u128>, ServerLoopInput)>,
) -> (ServerLoopState, Seq<ServerLoopActionView>)
    decreases steps.len(),
{
    if steps.len() == 0 {
        (state, seq![])
    } else {
        let before = server_loop_run(state, steps.drop_last());
        let step = server_loop_next(steps.last().0, before.0, steps.last().1);
        (step.0, before.1 + step.1)
    }
}

/// What stopped the accept loop fed `steps` from a running state: the input
/// of the step at which it stopped, if it did.
pub open spec fn server_loop_stop_cause(steps: Seq<(Seq<u128>, ServerLoopInput)>) -> Option<
    ServerLoopInput,
>
    decreases steps.len(),
{
    if steps.len() == 0 {
        None
    } else {
        let earlier = server_loop_stop_cause(steps.drop_last());
        if earlier is Some {
            earlier
        } else if server_loop_next(
            steps.last().0,
            server_loop_run(ServerLoopState::Running, steps.drop_last()).0,
            steps.last().1,
        ).0 == ServerLoopState::Stopped {
            Some(steps.last().1)
        } else {
            None
        }
    }
}

/// A server's accept loop stops exactly once something stops it, and then
/// does nothing more; it asks for the server to be unregistered exactly when
/// a close request (graceful or forceful) stopped it, then as its very last
/// action and only once; a failed bind stops it without unregistering.
pub proof fn law_server_loop_unregisters_last(steps: Seq<(Seq<u128>, ServerLoopInput)>)
    ensures
        ({
            let (state, actions) = server_loop_run(ServerLoopState::Running, steps);
            let cause = server_loop_stop_cause(steps);
            &&& (state == ServerLoopState::Stopped <==> cause is Some)
            &&& forall|i: int|
                0 <= i < actions.len() && #[trigger] actions[i] == ServerLoopActionView::Unregister
                    ==> i == actions.len() - 1
            &&& ((actions.len() > 0 && actions.last() == ServerLoopActionView::Unregister) <==> (
            cause matches Some(ServerLoopInput::CloseRequested(_))))
        }),
    decreases steps.len(),
{
    if steps.len() > 0 {
        law_server_loop_unregisters_last(steps.drop_last());
        let before = server_loop_run(ServerLoopState::Running, steps.drop_last());
        let (order, input) = steps.last();
        let step = server_loop_next(order, before.0, input);
        let acts = before.1 + step.1;
        if before.0 == ServerLoopState::Stopped {
            assert(acts =~= before.1);
        } else {
            assert(server_loop_stop_cause(steps.drop_last()) is None);
            let terminations = order.map_values(|id: u128| ServerLoopActionView::TerminateClient(id));
            assert forall|i: int| 0 <= i < step.1.len() - 1 implies step.1[i]
                != ServerLoopActionView::Unregister by {
                if input == ServerLoopInput::CloseRequested(
                    WebsocketServerCloseConnectionEvent::Graceful,
                ) {
                    assert(step.1 == terminations.push(ServerLoopActionView::Unregister));
                    assert(step.1[i] == terminations[i]);
                }
            }
            if step.1.len() > 0 && step.1.last() == ServerLoopActionView::Unregister {
                assert(acts.last() == step.1.last());
            } else if step.1.len() > 0 {
                assert(acts.last() == step.1.last());
                assert(step.1.last() matches ServerLoopActionView::SendToClient(_, _)
                    || step.1.last() == ServerLoopActionView::SpawnConnection);
            } else {
                assert(acts =~= before.1);
            }
            assert forall|i: int|
                0 <= i < acts.len() && #[trigger] acts[i] == ServerLoopActionView::Unregister
                    implies i == acts.len() - 1 by {
                if i < before.1.len() {
                    assert(acts[i] == before.1[i]);
                } else {
                    assert(acts[i] == step.1[i - before.1.len()]);
                }
            }
        }
    }
}

} // verus!

verus! {

/// A server whose accept loop was stopped by a close request asks, as its
/// last action, to be unregistered; doing so (`WebsocketServerRegistry::remove`
/// under its id) leaves no entry for it and every other server as it was.
pub proof fn law_server_closed_by_request_leaves_registry<H>(
    servers: Map<u128, WebsocketServer<H>>,
    id: u128,
    steps: Seq<(Seq<u128>, ServerLoopInput)>,
)
    requires
        server_loop_stop_cause(steps) matches Some(ServerLoopInput::CloseRequested(_)),
    ensures
        server_loop_run(ServerLoopState::Running, steps).1.len() > 0,
        server_loop_run(ServerLoopState::Running, steps).1.last() == ServerLoopActionView::Unregister,
        !servers.remove(id).contains_key(id),
        forall|k: u128|
            k != id ==> (#[trigger] servers.remove(id).contains_key(k) == servers.contains_key(k))
                && (servers.contains_key(k) ==> servers.remove(id)[k] == servers[k]),
{
    law_server_loop_unregisters_last(steps);
}

} // verus!

verus! {

/// A text frame received on an open connection is reported, as the only
/// action, as a new message of that very connection holding exactly the
/// received text; the connection stays open.
pub proof fn law_open_connection_reports_received_text_unchanged(id: u128, data: String)
    ensures
        ({
            let (state, actions) = server_connection_next(
                id,
                ServerConnectionState::Open,
                ServerConnectionInput::Received(ReceivedFrame::Text(data)),
            );
            &&& state == ServerConnectionState::Open
            &&& actions.len() == 1
            &&& actions[0] == ServerConnectionActionView::Emit(
                ServerEventView::NewMessage(id, data@),
            )
        }),
{
}

/// A text handed to an open connection is sent to the peer, as the only
/// action, as one text frame holding exactly that text; the connection
/// stays open.
pub proof fn law_open_connection_sends_outbound_text_unchanged(id: u128, text: String)
    ensures
        ({
            let (state, actions) = server_connection_next(
                id,
                ServerConnectionState::Open,
                ServerConnectionInput::Outbound(text),
            );
            &&& state == ServerConnectionState::Open
            &&& actions.len() == 1
            &&& actions[0] == ServerConnectionActionView::SendText(text@)
        }),
{
}

/// A broadcast on a running server hands the broadcast text itself,
/// unchanged, to every accepted connection, one send each, oldest first,
/// and nothing else; the server keeps running. The text each connection
/// gets is the very one that `record_broadcast` keeps for later
/// connections: the last of the replay after it (`after` being the shared
/// state as `record_broadcast` of the text leaves `before`).
pub proof fn law_broadcast_sends_the_text_itself<H>(
    before: ServerState<H>,
    after: ServerState<H>,
    message: String,
)
    requires
        before.wf(),
        after.wf(),
        after.replay() == before.replay().push(message@),
        after.order() == before.order(),
        after.clients() == before.clients(),
    ensures
        ({
            let order = before.order();
            let (state, actions) = server_loop_next(
                order,
                ServerLoopState::Running,
                ServerLoopInput::Broadcast(message),
            );
            &&& state == ServerLoopState::Running
            &&& actions.len() == order.len()
            &&& forall|i: int|
                0 <= i < order.len() ==> #[trigger] actions[i] == ServerLoopActionView::SendToClient(
                    order[i],
                    message@,
                )
            &&& forall|i: int|
                0 <= i < order.len() ==> #[trigger] actions[i] == ServerLoopActionView::SendToClient(
                    order[i],
                    after.replay().last(),
                )
        }),
{
    let order = before.order();
    let actions = server_loop_next(
        order,
        ServerLoopState::Running,
        ServerLoopInput::Broadcast(message),
    ).1;
    assert forall|i: int| 0 <= i < order.len() implies #[trigger] actions[i]
        == ServerLoopActionView::SendToClient(order[i], message@) by {
        assert(fanout(order, message@)[i] == (order[i], message@));
    }
}

} // verus!
