use websocket_nvim::client_session::ReceivedFrame;
use websocket_nvim::ids::id_text;
use websocket_nvim::registry::LookupError;
use websocket_nvim::server_client::WebsocketServerClient;
use websocket_nvim::server_events::{
    ServerCallback, WebsocketServerCloseConnectionEvent, WebsocketServerError,
    WebsocketServerInboundEvent,
};
use websocket_nvim::server_registry::{
    ServerSettings, ServerSetupError, WebsocketServer, WebsocketServerRegistry,
};
use websocket_nvim::server_session::{
    server_connection_step, server_loop_step, ServerConnectionAction, ServerConnectionInput,
    ServerConnectionState, ServerLoopAction, ServerLoopInput, ServerLoopState,
};
use websocket_nvim::server_state::ServerState;

use websocket_nvim::server_session::ServerConnectionAction as A;
use websocket_nvim::server_session::ServerConnectionInput as I;
use websocket_nvim::server_session::ServerConnectionState as S;

const SERVER: &str = "550e8400-e29b-41d4-a716-446655440000";
const CLIENT_ID: u128 = 0x6ba7b8109dad11d180b400c04fd430c8;
const CLIENT: &str = "6ba7b810-9dad-11d1-80b4-00c04fd430c8";

fn pair(a: &str, b: &str) -> (String, String) {
    (a.to_string(), b.to_string())
}

fn client(id: u128, addr: &str) -> WebsocketServerClient<()> {
    WebsocketServerClient { id, addr: addr.to_string(), running: true, handle: () }
}

#[test]
fn server_error_renders_for_lua() {
    let e = WebsocketServerError::ClientTerminationError(CLIENT_ID, "gone".to_string());
    assert_eq!(
        e.lua_fields(),
        vec![
            pair("type", "client_temrination_error"),
            pair("client_id", CLIENT),
            pair("message", "gone"),
        ]
    );
    assert_eq!(e.message(), "gone");
    assert_eq!(e.client_id(), Some(CLIENT_ID));
    let e = WebsocketServerError::BroadcastMessageError("full".to_string());
    assert_eq!(
        e.lua_fields(),
        vec![pair("type", "broadcast_message_error"), pair("message", "full")]
    );
    let kinds = [
        (WebsocketServerError::ClientConnectionError(String::new()), "client_connection_error"),
        (WebsocketServerError::ServerTerminationError(String::new()), "server_termination_error"),
        (WebsocketServerError::ReceiveMessageError(1, String::new()), "receive_message_error"),
        (WebsocketServerError::SendMessageError(1, String::new()), "send_message_error"),
    ];
    for (e, kind) in kinds {
        assert_eq!(e.lua_fields()[0], pair("type", kind));
    }
}

#[test]
fn server_events_pick_their_callbacks() {
    let sid = ServerSettings::parse(SERVER, "localhost".to_string(), 1).unwrap().id;
    let c = WebsocketServerInboundEvent::ClientConnected(CLIENT_ID).into_callback(sid);
    assert_eq!(
        c,
        ServerCallback::OnClientConnect { server_id: SERVER.to_string(), client_id: CLIENT.to_string() }
    );
    assert_eq!(c.name(), "on_client_connect");
    let c = WebsocketServerInboundEvent::ClientDisconnected(CLIENT_ID).into_callback(sid);
    assert_eq!(c.name(), "on_client_disconnect");
    let c = WebsocketServerInboundEvent::NewMessage(CLIENT_ID, "m".to_string()).into_callback(sid);
    assert_eq!(
        c,
        ServerCallback::OnMessage {
            server_id: SERVER.to_string(),
            client_id: CLIENT.to_string(),
            message: "m".to_string()
        }
    );
    assert_eq!(c.name(), "on_message");
    let e = WebsocketServerError::BroadcastMessageError("x".to_string());
    let c = WebsocketServerInboundEvent::Error(e.clone()).into_callback(sid);
    assert_eq!(c, ServerCallback::OnError { server_id: SERVER.to_string(), error: e });
    assert_eq!(c.name(), "on_error");
}

#[test]
fn server_settings_and_description() {
    assert_eq!(
        ServerSettings::parse("nope", "localhost".to_string(), 1),
        Err(ServerSetupError::InvalidServerId)
    );
    let s = ServerSettings::parse(SERVER, "127.0.0.1".to_string(), 12001).unwrap();
    assert_eq!(s.bind_address(), "127.0.0.1:12001");
    assert_eq!(
        s.describe(),
        vec![pair("id", SERVER), pair("host", "127.0.0.1"), pair("port", "12001")]
    );
}

#[test]
fn server_registry_lookups() {
    let mut registry: WebsocketServerRegistry<u8> = WebsocketServerRegistry::new();
    let s = ServerSettings::parse(SERVER, "localhost".to_string(), 80).unwrap();
    let id = s.id;
    assert!(matches!(registry.is_active(SERVER), Err(LookupError::NotFound)));
    registry.insert(WebsocketServer::new(s, 3));
    assert_eq!(registry.is_active(SERVER), Ok(true));
    assert!(matches!(registry.is_active("bad"), Err(LookupError::InvalidId)));
    assert_eq!(registry.lookup(SERVER).map(|s| s.handle), Ok(3));
    registry.lookup_mut(SERVER).unwrap().handle = 4;
    assert_eq!(registry.get(id).map(|s| s.handle), Some(4));
    let all = registry.describe_all();
    assert_eq!(all.len(), 1);
    assert_eq!(all[0].0, SERVER);
    assert_eq!(all[0].1, vec![pair("id", SERVER), pair("host", "localhost"), pair("port", "80")]);
    assert_eq!(registry.remove_by_text(SERVER).map(|s| s.handle), Ok(4));
    assert!(matches!(registry.remove_by_text(SERVER), Err(LookupError::NotFound)));
    assert!(registry.get_all().is_empty());
}

#[test]
fn server_event_helpers() {
    let s = WebsocketServer::new(ServerSettings::parse(SERVER, "h".to_string(), 1).unwrap(), ());
    assert_eq!(
        s.termination_failed("e".to_string()),
        WebsocketServerInboundEvent::Error(WebsocketServerError::ServerTerminationError("e".to_string()))
    );
    assert_eq!(
        s.broadcast_failed("e".to_string()),
        WebsocketServerInboundEvent::Error(WebsocketServerError::BroadcastMessageError("e".to_string()))
    );
    let mut c = client(CLIENT_ID, "1.2.3.4:5");
    assert_eq!(
        c.send_failed("x".to_string()),
        WebsocketServerInboundEvent::Error(WebsocketServerError::SendMessageError(CLIENT_ID, "x".to_string()))
    );
    assert_eq!(
        c.termination_failed("y".to_string()),
        WebsocketServerInboundEvent::Error(WebsocketServerError::ClientTerminationError(CLIENT_ID, "y".to_string()))
    );
    assert_eq!(c.describe(), vec![pair("id", CLIENT), pair("addr", "1.2.3.4:5")]);
    assert_eq!(id_text(CLIENT_ID), CLIENT);
    assert_eq!(id_text(0), "00000000-0000-0000-0000-000000000000");
    assert!(c.is_active());
    c.terminate();
    assert!(!c.is_active());
    let fresh = WebsocketServerClient::new("9.9.9.9:9".to_string(), ());
    assert!(fresh.is_active());
    assert_eq!(fresh.addr, "9.9.9.9:9");
    assert_eq!((fresh.id >> 76) & 0xf, 4);
    assert_eq!((fresh.id >> 62) & 0x3, 2);
}

#[test]
fn late_joiner_gets_every_earlier_broadcast() {
    let mut state: ServerState<()> = ServerState::new();
    state.record_broadcast("one".to_string());
    let queued = state.admit_client(client(1, "a"));
    assert_eq!(queued, vec!["one"]);
    state.record_broadcast("two".to_string());
    let queued = state.admit_client(client(2, "b"));
    assert_eq!(queued, vec!["one", "two"]);
    assert_eq!(state.broadcast_targets(), vec![1, 2]);
    assert_eq!(state.replay_messages(), vec!["one", "two"]);
    assert_eq!(state.is_client_active(CLIENT), Err(LookupError::NotFound));
    let described = state.describe_clients();
    assert_eq!(described.len(), 2);
    assert_eq!(described[1].1[1], pair("addr", "b"));
}

#[test]
fn terminating_one_client_leaves_the_others() {
    let mut state: ServerState<()> = ServerState::new();
    state.admit_client(client(1, "a"));
    state.admit_client(client(CLIENT_ID, "b"));
    assert_eq!(state.terminate_client("x").err(), Some(LookupError::InvalidId));
    assert_eq!(state.terminate_client(SERVER).err(), Some(LookupError::NotFound));
    let c = state.terminate_client(CLIENT).unwrap();
    assert_eq!(c.id, CLIENT_ID);
    assert!(!c.running);
    assert_eq!(state.is_client_active(CLIENT), Ok(false));
    assert!(state.get_client(1).unwrap().running);
    assert_eq!(state.broadcast_targets(), vec![1, CLIENT_ID]);
    assert_eq!(state.lookup_client(CLIENT).map(|c| c.addr.clone()), Ok("b".to_string()));
    let described = state.describe_clients();
    assert_eq!(described[1], (CLIENT.to_string(), vec![pair("id", CLIENT), pair("addr", "b")]));
}

#[test]
fn kept_messages_hold_every_broadcast_in_order() {
    let mut state: ServerState<()> = ServerState::new();
    state.record_broadcast("before anyone".to_string());
    state.admit_client(client(1, "a"));
    state.record_broadcast("after".to_string());
    let _ = state.terminate_client("not-an-id");
    assert_eq!(state.replay_messages(), vec!["before anyone", "after"]);
}

#[test]
fn server_loop_broadcasts_and_terminates() {
    let mut state: ServerState<()> = ServerState::new();
    state.admit_client(client(1, "a"));
    state.admit_client(client(CLIENT_ID, "b"));
    let (s, a) = server_loop_step(&state, ServerLoopState::Running, ServerLoopInput::Accepted);
    assert_eq!((s, a), (ServerLoopState::Running, vec![ServerLoopAction::SpawnConnection]));
    let (s, a) = server_loop_step(&state, s, ServerLoopInput::Broadcast("hi".to_string()));
    assert_eq!(s, ServerLoopState::Running);
    assert_eq!(
        a,
        vec![
            ServerLoopAction::SendToClient(1, "hi".to_string()),
            ServerLoopAction::SendToClient(CLIENT_ID, "hi".to_string()),
        ]
    );
    assert_eq!(state.is_client_active(CLIENT), Ok(true));
    let (s, a) = server_loop_step(
        &state,
        s,
        ServerLoopInput::CloseRequested(WebsocketServerCloseConnectionEvent::Graceful),
    );
    assert_eq!(s, ServerLoopState::Stopped);
    assert_eq!(
        a,
        vec![
            ServerLoopAction::TerminateClient(1),
            ServerLoopAction::TerminateClient(CLIENT_ID),
            ServerLoopAction::Unregister,
        ]
    );
    assert_eq!(state.is_client_active(CLIENT), Ok(true));
    let (s, a) = server_loop_step(&state, s, ServerLoopInput::Broadcast("late".to_string()));
    assert_eq!((s, a), (ServerLoopState::Stopped, vec![]));
}

#[test]
fn server_loop_forceful_and_bind_failure() {
    let mut state: ServerState<()> = ServerState::new();
    state.admit_client(client(1, "a"));
    let (s, a) = server_loop_step(
        &state,
        ServerLoopState::Running,
        ServerLoopInput::CloseRequested(WebsocketServerCloseConnectionEvent::Forceful),
    );
    assert_eq!((s, a), (ServerLoopState::Stopped, vec![ServerLoopAction::Unregister]));
    assert!(state.get_client(1).unwrap().running);
    let (s, a) = server_loop_step(&state, ServerLoopState::Running, ServerLoopInput::BindFailed);
    assert_eq!((s, a), (ServerLoopState::Stopped, vec![]));
}

#[test]
fn server_connection_lifecycle() {
    let id = CLIENT_ID;
    let (s, a) = server_connection_step(id, S::Handshaking, I::HandshakeCompleted);
    assert_eq!(s, S::Open);
    assert_eq!(a, vec![A::Emit(WebsocketServerInboundEvent::ClientConnected(id)), A::Admit]);
    let (s, a) = server_connection_step(id, s, I::Received(ReceivedFrame::Text("t".to_string())));
    assert_eq!(a, vec![A::Emit(WebsocketServerInboundEvent::NewMessage(id, "t".to_string()))]);
    let (s, a) = server_connection_step(id, s, I::Received(ReceivedFrame::Binary));
    assert_eq!(
        a,
        vec![A::Emit(WebsocketServerInboundEvent::Error(WebsocketServerError::ReceiveMessageError(
            id,
            "Binary data handling is not supported".to_string()
        )))]
    );
    let (s, a) = server_connection_step(id, s, I::Received(ReceivedFrame::Frame));
    assert_eq!(
        a,
        vec![A::Emit(WebsocketServerInboundEvent::Error(WebsocketServerError::ReceiveMessageError(
            id,
            "Raw frame data handling is not supported".to_string()
        )))]
    );
    let (s, a) = server_connection_step(id, s, I::Received(ReceivedFrame::Close));
    assert!(a.is_empty());
    let (s, a) = server_connection_step(id, s, I::Outbound("o".to_string()));
    assert_eq!(a, vec![A::SendText("o".to_string())]);
    let (s, a) = server_connection_step(
        id,
        s,
        I::CloseRequested(WebsocketServerCloseConnectionEvent::Graceful),
    );
    assert_eq!(s, S::Closed);
    assert_eq!(a, vec![A::SendClose, A::Emit(WebsocketServerInboundEvent::ClientDisconnected(id))]);
    let (s, a) = server_connection_step(id, s, I::Outbound("x".to_string()));
    assert_eq!((s, a), (S::Closed, vec![]));
}

#[test]
fn server_connection_ends_silently_on_broken_channels() {
    let (s, a) = server_connection_step(7, S::Handshaking, I::HandshakeFailed);
    assert_eq!((s, a), (S::Closed, vec![]));
    for input in [I::ReceiverEnded, I::CloseChannelEnded, I::OutboundChannelEnded, I::SendFailed] {
        let (s, a) = server_connection_step(7, S::Open, input);
        assert_eq!((s, a), (S::Closed, vec![]));
    }
    let (s, a) = server_connection_step(
        7,
        S::Open,
        I::CloseRequested(WebsocketServerCloseConnectionEvent::Forceful),
    );
    assert_eq!(s, S::Closed);
    assert_eq!(
        a,
        vec![ServerConnectionAction::Emit(WebsocketServerInboundEvent::ClientDisconnected(7))]
    );
}
