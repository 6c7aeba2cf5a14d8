use vstd::prelude::*;
use vstd::string::*;

use crate::ids::{uuid_text, uuid_to_string};
use crate::text::pairs_view;

verus! {

/// What can go wrong on a server; errors about one client carry its id.
#[derive(Clone, Debug, PartialEq, Eq)]
pub enum WebsocketServerError {
    ClientConnectionError(String),
    ClientTerminationError(u128, String),
    ServerTerminationError(String),
    ReceiveMessageError(u128, String),
    SendMessageError(u128, String),
    BroadcastMessageError(String),
}

/// What a server reports to Lua.
#[derive(Clone, Debug, PartialEq, Eq)]
pub enum WebsocketServerInboundEvent {
    ClientConnected(u128),
    ClientDisconnected(u128),
    NewMessage(u128, String),
    Error(WebsocketServerError),
}

/// How a server, or one connection of it, is asked to close: with a close
/// frame to the peer, or at once.
#[derive(Clone, Copy, Debug, PartialEq, Eq)]
pub enum WebsocketServerCloseConnectionEvent {
    Graceful,
    Forceful,
}

/// The kind of a server error, without its client id and message.
#[derive(Clone, Copy, Debug, PartialEq, Eq)]
pub enum ServerErrorKind {
    ClientConnection,
    ClientTermination,
    ServerTermination,
    ReceiveMessage,
    SendMessage,
    BroadcastMessage,
}

/// A server error as its kind, the client it concerns (if any), and its
/// message.
pub struct ServerErrorView {
    pub kind: ServerErrorKind,
    pub client_id: Option<u128>,
    pub message: Seq<char>,
}

/// An event of a server, with its texts as character sequences.
pub enum ServerEventView {
    ClientConnected(u128),
    ClientDisconnected(u128),
    NewMessage(u128, Seq<char>),
    Error(ServerErrorView),
}

impl View for WebsocketServerError {
    type V = ServerErrorView;

    open spec fn view(&self) -> ServerErrorView {
        match self {
            WebsocketServerError::ClientConnectionError(m) => ServerErrorView {
                kind: ServerErrorKind::ClientConnection,
                client_id: None,
                message: m@,
            },
            WebsocketServerError::ClientTerminationError(id, m) => ServerErrorView {
                kind: ServerErrorKind::ClientTermination,
                client_id: Some(*id),
                message: m@,
            },
            WebsocketServerError::ServerTerminationError(m) => ServerErrorView {
                kind: ServerErrorKind::ServerTermination,
                client_id: None,
                message: m@,
            },
            WebsocketServerError::ReceiveMessageError(id, m) => ServerErrorView {
                kind: ServerErrorKind::ReceiveMessage,
                client_id: Some(*id),
                message: m@,
            },
            WebsocketServerError::SendMessageError(id, m) => ServerErrorView {
                kind: ServerErrorKind::SendMessage,
                client_id: Some(*id),
                message: m@,
            },
            WebsocketServerError::BroadcastMessageError(m) => ServerErrorView {
                kind: ServerErrorKind::BroadcastMessage,
                client_id: None,
                message: m@,
            },
        }
    }
}

impl View for WebsocketServerInboundEvent {
    type V = ServerEventView;

    open spec fn view(&self) -> ServerEventView {
        match self {
            WebsocketServerInboundEvent::ClientConnected(id) => ServerEventView::ClientConnected(*id),
            WebsocketServerInboundEvent::ClientDisconnected(id) => ServerEventView::ClientDisconnected(
                *id,
            ),
            WebsocketServerInboundEvent::NewMessage(id, m) => ServerEventView::NewMessage(*id, m@),
            WebsocketServerInboundEvent::Error(e) => ServerEventView::Error(e@),
        }
    }
}

/// The name of an error kind, as Lua sees it.
pub open spec fn server_error_kind_name(kind: ServerErrorKind) -> Seq<char> {
    match kind {
        ServerErrorKind::ClientConnection => "client_connection_error"@,
        ServerErrorKind::ClientTermination => "client_temrination_error"@,
        ServerErrorKind::ServerTermination => "server_termination_error"@,
        ServerErrorKind::ReceiveMessage => "receive_message_error"@,
        ServerErrorKind::SendMessage => "send_message_error"@,
        ServerErrorKind::BroadcastMessage => "broadcast_message_error"@,
    }
}

/// The fields of the Lua table that stands for a server error: the kind
/// under "type", the client's UUID text under "client_id" where the error
/// concerns a client, then the message under "message".
pub open spec fn server_error_fields(e: ServerErrorView) -> Seq<(Seq<char>, Seq<char>)> {
    match e.client_id {
        None => seq![("type"@, server_error_kind_name(e.kind)), ("message"@, e.message)],
        Some(id) => seq![
            ("type"@, server_error_kind_name(e.kind)),
            ("client_id"@, uuid_text(id)),
            ("message"@, e.message),
        ],
    }
}

impl WebsocketServerError {
    /// The error as a Neovim object: its message.
    pub fn message(&self) -> (m: String)
        ensures
            m@ == self@.message,
    {
        match self {
            WebsocketServerError::ClientConnectionError(m) => m.clone(),
            WebsocketServerError::ClientTerminationError(_, m) => m.clone(),
            WebsocketServerError::ServerTerminationError(m) => m.clone(),
            WebsocketServerError::ReceiveMessageError(_, m) => m.clone(),
            WebsocketServerError::SendMessageError(_, m) => m.clone(),
            WebsocketServerError::BroadcastMessageError(m) => m.clone(),
        }
    }

    /// The client the error concerns, if any.
    pub fn client_id(&self) -> (id: Option<u128>)
        ensures
            id == self@.client_id,
    {
        match self {
            WebsocketServerError::ClientTerminationError(id, _) => Some(*id),
            WebsocketServerError::ReceiveMessageError(id, _) => Some(*id),
            WebsocketServerError::SendMessageError(id, _) => Some(*id),
            _ => None,
        }
    }

    /// The fields of the Lua table that stands for the error.
    pub fn lua_fields(&self) -> (fields: Vec<(String, String)>)
        ensures
            pairs_view(fields@) == server_error_fields(self@),
    {
        proof {
            reveal_strlit("type");
            reveal_strlit("client_id");
            reveal_strlit("message");
            reveal_strlit("client_connection_error");
            reveal_strlit("client_temrination_error");
            reveal_strlit("server_termination_error");
            reveal_strlit("receive_message_error");
            reveal_strlit("send_message_error");
            reveal_strlit("broadcast_message_error");
        }
        let kind = match self {
            WebsocketServerError::ClientConnectionError(_) => String::from_str(
                "client_connection_error",
            ),
            WebsocketServerError::ClientTerminationError(_, _) => String::from_str(
                "client_temrination_error",
            ),
            WebsocketServerError::ServerTerminationError(_) => String::from_str(
                "server_termination_error",
            ),
            WebsocketServerError::ReceiveMessageError(_, _) => String::from_str(
                "receive_message_error",
            ),
            WebsocketServerError::SendMessageError(_, _) => String::from_str("send_message_error"),
            WebsocketServerError::BroadcastMessageError(_) => String::from_str(
                "broadcast_message_error",
            ),
        };
        let mut fields: Vec<(String, String)> = Vec::new();
        fields.push((String::from_str("type"), kind));
        match self.client_id() {
            Some(id) => {
                fields.push((String::from_str("client_id"), uuid_to_string(id)));
            },
            None => {},
        }
        fields.push((String::from_str("message"), self.message()));
        proof {
            assert(pairs_view(fields@) =~= server_error_fields(self@));
        }
        fields
    }
}

/// The Lua callback that an event of a server calls, with its arguments;
/// ids are UUIDs as text.
#[derive(Clone, Debug, PartialEq, Eq)]
pub enum ServerCallback {
    OnClientConnect { server_id: String, client_id: String },
    OnClientDisconnect { server_id: String, client_id: String },
    OnMessage { server_id: String, client_id: String, message: String },
    OnError { server_id: String, error: WebsocketServerError },
}

impl ServerCallback {
    /// The key under which Lua registers this callback.
    pub open spec fn name_view(&self) -> Seq<char> {
        match self {
            ServerCallback::OnClientConnect { .. } => "on_client_connect"@,
            ServerCallback::OnClientDisconnect { .. } => "on_client_disconnect"@,
            ServerCallback::OnMessage { .. } => "on_message"@,
            ServerCallback::OnError { .. } => "on_error"@,
        }
    }

    /// The key under which Lua registers this callback.
    pub fn name(&self) -> (name: String)
        ensures
            name@ == self.name_view(),
    {
        proof {
            reveal_strlit("on_client_connect");
            reveal_strlit("on_client_disconnect");
            reveal_strlit("on_message");
            reveal_strlit("on_error");
        }
        match self {
            ServerCallback::OnClientConnect { .. } => String::from_str("on_client_connect"),
            ServerCallback::OnClientDisconnect { .. } => String::from_str("on_client_disconnect"),
            ServerCallback::OnMessage { .. } => String::from_str("on_message"),
            ServerCallback::OnError { .. } => String::from_str("on_error"),
        }
    }
}

impl WebsocketServerInboundEvent {
    /// The callback that the event of the server `server_id` calls.
    pub fn into_callback(self, server_id: u128) -> (c: ServerCallback)
        ensures
            match self {
                WebsocketServerInboundEvent::ClientConnected(cid) => c matches ServerCallback::OnClientConnect {
                    server_id: s,
                    client_id: ct,
                } && s@ == uuid_text(server_id) && ct@ == uuid_text(cid),
                WebsocketServerInboundEvent::ClientDisconnected(
                    cid,
                ) => c matches ServerCallback::OnClientDisconnect { server_id: s, client_id: ct }
                    && s@ == uuid_text(server_id) && ct@ == uuid_text(cid),
                WebsocketServerInboundEvent::NewMessage(cid, m) => c matches ServerCallback::OnMessage {
                    server_id: s,
                    client_id: ct,
                    message,
                } && s@ == uuid_text(server_id) && ct@ == uuid_text(cid) && message == m,
                WebsocketServerInboundEvent::Error(e) => c matches ServerCallback::OnError {
                    server_id: s,
                    error,
                } && s@ == uuid_text(server_id) && error == e,
            },
    {
        let sid = uuid_to_string(server_id);
        match self {
            WebsocketServerInboundEvent::ClientConnected(cid) => ServerCallback::OnClientConnect {
                server_id: sid,
                client_id: uuid_to_string(cid),
            },
            WebsocketServerInboundEvent::ClientDisconnected(cid) => ServerCallback::OnClientDisconnect {
                server_id: sid,
                client_id: uuid_to_string(cid),
            },
            WebsocketServerInboundEvent::NewMessage(cid, message) => ServerCallback::OnMessage {
                server_id: sid,
                client_id: uuid_to_string(cid),
                message,
            },
            WebsocketServerInboundEvent::Error(error) => ServerCallback::OnError {
                server_id: sid,
                error,
            },
        }
    }
}

} // verus!
