use websocket_nvim::client_events::{
    ClientCallback, WebsocketClientCloseConnectionEvent, WebsocketClientError,
    WebsocketClientInboundEvent,
};
use websocket_nvim::client_registry::{WebsocketClient, WebsocketClientRegistry};
use websocket_nvim::client_session::{
    client_session_step, ClientSessionAction, ClientSessionInput, ClientSessionState,
    ReceivedFrame,
};
use websocket_nvim::client_setup::{
    build_handshake_request, default_port_of, handshake_request_with_key, valid_extra_headers_of,
    ClientSettings,
    ClientSetupError, UrlParts,
};
use websocket_nvim::registry::LookupError;

use websocket_nvim::client_session::ClientSessionAction as A;
use websocket_nvim::client_session::ClientSessionInput as I;
use websocket_nvim::client_session::ClientSessionState as S;

const ID: &str = "550e8400-e29b-41d4-a716-446655440000";
const OTHER_ID: &str = "6ba7b810-9dad-11d1-80b4-00c04fd430c8";

fn pair(a: &str, b: &str) -> (String, String) {
    (a.to_string(), b.to_string())
}

#[test]
fn client_error_renders_for_lua() {
    let e = WebsocketClientError::ReceiveMessageError("bad frame".to_string());
    assert_eq!(e.message(), "bad frame");
    assert_eq!(
        e.lua_fields(),
        vec![pair("type", "receive_message_error"), pair("message", "bad frame")]
    );
    let e = WebsocketClientError::ConnectionError("refused".to_string());
    assert_eq!(e.lua_fields()[0], pair("type", "connection_error"));
    let e = WebsocketClientError::DisconnectionError("x".to_string());
    assert_eq!(e.lua_fields()[0], pair("type", "disconnection_error"));
    let e = WebsocketClientError::SendMessageError("y".to_string());
    assert_eq!(e.lua_fields()[0], pair("type", "send_message_error"));
    assert_eq!(e.message(), "y");
}

#[test]
fn received_text_becomes_new_message() {
    assert_eq!(
        WebsocketClientInboundEvent::try_from_string("hi".to_string()),
        Ok(WebsocketClientInboundEvent::NewMessage("hi".to_string()))
    );
}

#[test]
fn client_events_pick_their_callbacks() {
    let settings = ClientSettings::parse(ID, "ws://localhost:8080", vec![]).unwrap();
    let id = settings.id;
    let c = WebsocketClientInboundEvent::Connected.into_callback(id);
    assert_eq!(c, ClientCallback::OnConnect { client_id: ID.to_string() });
    assert_eq!(c.name(), "on_connect");
    let c = WebsocketClientInboundEvent::Disconnected.into_callback(id);
    assert_eq!(c.name(), "on_disconnect");
    let c = WebsocketClientInboundEvent::NewMessage("m".to_string()).into_callback(id);
    assert_eq!(
        c,
        ClientCallback::OnMessage { client_id: ID.to_string(), message: "m".to_string() }
    );
    assert_eq!(c.name(), "on_message");
    let err = WebsocketClientError::SendMessageError("closed".to_string());
    let c = WebsocketClientInboundEvent::Error(err.clone()).into_callback(id);
    assert_eq!(c, ClientCallback::OnError { client_id: ID.to_string(), error: err });
    assert_eq!(c.name(), "on_error");
}

#[test]
fn client_settings_check_id_then_address() {
    assert_eq!(
        ClientSettings::parse("not-a-uuid", "not a url", vec![]),
        Err(ClientSetupError::InvalidClientId)
    );
    assert_eq!(
        ClientSettings::parse(ID, "not a url", vec![]),
        Err(ClientSetupError::InvalidAddress)
    );
    let s = ClientSettings::parse(ID, "ws://example.com:9000/chat", vec![pair("X-Token", "t")])
        .unwrap();
    assert_eq!(s.id, 0x550e8400e29b41d4a716446655440000);
    assert_eq!(s.connect_addr.scheme, "ws");
    assert_eq!(s.connect_addr.host.as_deref(), Some("example.com"));
    assert_eq!(s.connect_addr.port, Some(9000));
    assert_eq!(s.connect_addr.serialized, "ws://example.com:9000/chat");
    assert_eq!(s.extra_headers, vec![pair("X-Token", "t")]);
}

#[test]
fn default_ports_by_scheme() {
    assert_eq!(default_port_of(&"ws".to_string()), 80);
    assert_eq!(default_port_of(&"wss".to_string()), 443);
    assert_eq!(default_port_of(&"http".to_string()), 80);
}

#[test]
fn handshake_uses_url_port_or_default() {
    let url = ClientSettings::parse(ID, "wss://example.com/socket", vec![]).unwrap().connect_addr;
    let req = handshake_request_with_key(&url, "a2V5".to_string(), vec![pair("a", "b")]).unwrap();
    assert_eq!(req.uri, "wss://example.com/socket");
    assert_eq!(
        req.headers,
        vec![
            pair("host", "example.com:443"),
            pair("sec-websocket-key", "a2V5"),
            pair("upgrade", "Websocket"),
            pair("connection", "Upgrade"),
            pair("sec-websocket-version", "13"),
            pair("a", "b"),
        ]
    );
    let url = ClientSettings::parse(ID, "ws://localhost:8080", vec![]).unwrap().connect_addr;
    let req = build_handshake_request(&url, vec![]).unwrap();
    assert_eq!(req.headers[0], pair("host", "localhost:8080"));
    assert_eq!(req.headers[1].0, "sec-websocket-key");
    assert_eq!(req.headers[1].1.len(), 24);
    assert!(req.headers[1].1.ends_with("=="));
    assert_eq!(req.headers.len(), 5);
}

#[test]
fn extra_headers_replace_fixed_ones_of_the_same_name() {
    let url = ClientSettings::parse(ID, "ws://localhost", vec![]).unwrap().connect_addr;
    let req = handshake_request_with_key(
        &url,
        "k".to_string(),
        vec![pair("X-Token", "1"), pair("Host", "proxy:9"), pair("x-token", "2")],
    )
    .unwrap();
    assert_eq!(
        req.headers,
        vec![
            pair("host", "proxy:9"),
            pair("sec-websocket-key", "k"),
            pair("upgrade", "Websocket"),
            pair("connection", "Upgrade"),
            pair("sec-websocket-version", "13"),
            pair("x-token", "2"),
        ]
    );
}

#[test]
fn handshake_without_host_fails() {
    let url = UrlParts {
        scheme: "data".to_string(),
        host: None,
        port: None,
        serialized: "data:text/plain,x".to_string(),
    };
    assert_eq!(
        build_handshake_request(&url, vec![]),
        Err(WebsocketClientError::ConnectionError("Host is not set".to_string()))
    );
}

#[test]
fn client_registry_tracks_clients_by_text_id() {
    let mut registry: WebsocketClientRegistry<u8> = WebsocketClientRegistry::new();
    assert_eq!(registry.is_active(ID), Some(false));
    assert_eq!(registry.is_active("nope"), None);
    let settings = ClientSettings::parse(ID, "ws://localhost:1", vec![]).unwrap();
    let id = settings.id;
    registry.insert(WebsocketClient::new(settings, 7));
    assert_eq!(registry.is_active(ID), Some(true));
    assert_eq!(registry.is_active(OTHER_ID), Some(false));
    assert_eq!(registry.get(id).map(|c| c.handle), Some(7));
    registry.get_mut(id).unwrap().handle = 9;
    assert_eq!(registry.lookup_mut(ID).map(|c| c.handle), Ok(9));
    assert!(matches!(registry.lookup_mut(OTHER_ID), Err(LookupError::NotFound)));
    assert!(matches!(registry.lookup_mut("x"), Err(LookupError::InvalidId)));
    assert_eq!(registry.get_all().len(), 1);
    assert_eq!(registry.remove(id).map(|c| c.handle), Some(9));
    assert_eq!(registry.is_active(ID), Some(false));
    assert!(registry.remove(id).is_none());
}

#[test]
fn client_hand_over_failure_is_a_send_error() {
    let settings = ClientSettings::parse(ID, "ws://localhost:1", vec![]).unwrap();
    let client = WebsocketClient::new(settings, ());
    assert_eq!(
        client.hand_over_failed("channel closed".to_string()),
        WebsocketClientInboundEvent::Error(WebsocketClientError::SendMessageError(
            "channel closed".to_string()
        ))
    );
}

fn step(state: ClientSessionState, input: ClientSessionInput) -> (ClientSessionState, Vec<ClientSessionAction>) {
    client_session_step(state, input)
}

#[test]
fn client_session_full_lifecycle() {
    let (s, a) = step(S::Connecting, I::Outbound("early".to_string()));
    assert_eq!((s, a), (S::Connecting, vec![]));
    let (s, a) = step(s, I::HandshakeCompleted);
    assert_eq!(s, S::Open);
    assert_eq!(a, vec![A::Emit(WebsocketClientInboundEvent::Connected)]);
    let (s, a) = step(s, I::Received(ReceivedFrame::Text("hello".to_string())));
    assert_eq!(a, vec![A::Emit(WebsocketClientInboundEvent::NewMessage("hello".to_string()))]);
    let (s, a) = step(s, I::Received(ReceivedFrame::Binary));
    assert_eq!(
        a,
        vec![A::Emit(WebsocketClientInboundEvent::Error(
            WebsocketClientError::ReceiveMessageError("Binary data is not supported".to_string())
        ))]
    );
    let (s, a) = step(s, I::Received(ReceivedFrame::Ping));
    assert!(a.is_empty());
    let (s, a) = step(s, I::ReceiveFailed("reset".to_string()));
    assert_eq!(
        a,
        vec![A::Emit(WebsocketClientInboundEvent::Error(
            WebsocketClientError::ReceiveMessageError("reset".to_string())
        ))]
    );
    let (s, a) = step(s, I::Outbound("out".to_string()));
    assert_eq!(a, vec![A::SendText("out".to_string())]);
    let (s, a) = step(s, I::SendFailed("broken pipe".to_string()));
    assert_eq!(
        a,
        vec![A::Emit(WebsocketClientInboundEvent::Error(
            WebsocketClientError::ConnectionError("broken pipe".to_string())
        ))]
    );
    let (s, a) = step(s, I::CloseRequested(WebsocketClientCloseConnectionEvent::Graceful));
    assert_eq!((s, a), (S::Open, vec![A::SendClose]));
    let (s, a) = step(s, I::Received(ReceivedFrame::Close));
    assert_eq!(s, S::Closed);
    assert_eq!(a, vec![A::Emit(WebsocketClientInboundEvent::Disconnected), A::Unregister]);
    let (s, a) = step(s, I::Outbound("late".to_string()));
    assert_eq!((s, a), (S::Closed, vec![]));
}

#[test]
fn client_session_forceful_close_and_failed_connect() {
    let (s, _) = step(S::Connecting, I::HandshakeCompleted);
    let (s, a) = step(s, I::CloseRequested(WebsocketClientCloseConnectionEvent::Forceful));
    assert_eq!(s, S::Closed);
    assert_eq!(a, vec![A::Emit(WebsocketClientInboundEvent::Disconnected), A::Unregister]);
    let e = WebsocketClientError::ConnectionError("refused".to_string());
    let (s, a) = step(S::Connecting, I::ConnectFailed(e.clone()));
    assert_eq!(s, S::Closed);
    assert_eq!(a, vec![A::Emit(WebsocketClientInboundEvent::Error(e)), A::Unregister]);
}

#[test]
fn extra_headers_are_checked() {
    assert!(valid_extra_headers_of(&vec![pair("X-Token", "a b\tc~"), pair("x_y.z", "")]));
    assert!(!valid_extra_headers_of(&vec![pair("", "v")]));
    assert!(!valid_extra_headers_of(&vec![pair("bad name", "v")]));
    assert!(!valid_extra_headers_of(&vec![pair("ok", "line\nbreak")]));
    assert!(!valid_extra_headers_of(&vec![pair("ok", "caf\u{e9}")]));
    assert!(valid_extra_headers_of(&vec![]));
}
