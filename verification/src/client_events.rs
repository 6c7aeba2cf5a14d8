use vstd::prelude::*;
use vstd::string::*;

use crate::ids::{uuid_text, uuid_to_string};
use crate::text::pairs_view;

verus! {

/// What can go wrong on a client connection; each kind carries a message.
#[derive(Clone, Debug, PartialEq, Eq)]
pub enum WebsocketClientError {
    ConnectionError(String),
    DisconnectionError(String),
    ReceiveMessageError(String),
    SendMessageError(String),
}

/// What a client connection reports to Lua.
#[derive(Clone, Debug, PartialEq, Eq)]
pub enum WebsocketClientInboundEvent {
    Connected,
    Disconnected,
    NewMessage(String),
    Error(WebsocketClientError),
}

/// How a client connection is asked to close: with a close frame to the
/// peer, or at once.
#[derive(Clone, Copy, Debug, PartialEq, Eq)]
pub enum WebsocketClientCloseConnectionEvent {
    Graceful,
    Forceful,
}

/// The kind of a client error, without its message.
#[derive(Clone, Copy, Debug, PartialEq, Eq)]
pub enum ClientErrorKind {
    Connection,
    Disconnection,
    ReceiveMessage,
    SendMessage,
}

/// An event of a client, with its texts as character sequences.
pub enum ClientEventView {
    Connected,
    Disconnected,
    NewMessage(Seq<char>),
    Error(ClientErrorKind, Seq<char>),
}

impl View for WebsocketClientError {
    type V = (ClientErrorKind, Seq<char>);

    open spec fn view(&self) -> (ClientErrorKind, Seq<char>) {
        match self {
            WebsocketClientError::ConnectionError(m) => (ClientErrorKind::Connection, m@),
            WebsocketClientError::DisconnectionError(m) => (ClientErrorKind::Disconnection, m@),
            WebsocketClientError::ReceiveMessageError(m) => (ClientErrorKind::ReceiveMessage, m@),
            WebsocketClientError::SendMessageError(m) => (ClientErrorKind::SendMessage, m@),
        }
    }
}

impl View for WebsocketClientInboundEvent {
    type V = ClientEventView;

    open spec fn view(&self) -> ClientEventView {
        match self {
            WebsocketClientInboundEvent::Connected => ClientEventView::Connected,
            WebsocketClientInboundEvent::Disconnected => ClientEventView::Disconnected,
            WebsocketClientInboundEvent::NewMessage(m) => ClientEventView::NewMessage(m@),
            WebsocketClientInboundEvent::Error(e) => ClientEventView::Error(e@.0, e@.1),
        }
    }
}

impl WebsocketClientError {
    /// The message the error carries.
    pub open spec fn message_view(&self) -> Seq<char> {
        match self {
            WebsocketClientError::ConnectionError(m) => m@,
            WebsocketClientError::DisconnectionError(m) => m@,
            WebsocketClientError::ReceiveMessageError(m) => m@,
            WebsocketClientError::SendMessageError(m) => m@,
        }
    }

    /// The name of the error's kind, as Lua sees it.
    pub open spec fn kind_view(&self) -> Seq<char> {
        match self {
            WebsocketClientError::ConnectionError(_) => "connection_error"@,
            WebsocketClientError::DisconnectionError(_) => "disconnection_error"@,
            WebsocketClientError::ReceiveMessageError(_) => "receive_message_error"@,
            WebsocketClientError::SendMessageError(_) => "send_message_error"@,
        }
    }

    /// The error as a Neovim object: its message.
    pub fn message(&self) -> (m: String)
        ensures
            m@ == self.message_view(),
    {
        match self {
            WebsocketClientError::ConnectionError(m) => m.clone(),
            WebsocketClientError::DisconnectionError(m) => m.clone(),
            WebsocketClientError::ReceiveMessageError(m) => m.clone(),
            WebsocketClientError::SendMessageError(m) => m.clone(),
        }
    }

    /// The fields of the Lua table that stands for the error: its kind
    /// under "type", then its message under "message".
    pub fn lua_fields(&self) -> (fields: Vec<(String, String)>)
        ensures
            pairs_view(fields@) == seq![
                ("type"@, self.kind_view()),
                ("message"@, self.message_view()),
            ],
    {
        proof {
            reveal_strlit("type");
            reveal_strlit("message");
            reveal_strlit("connection_error");
            reveal_strlit("disconnection_error");
            reveal_strlit("receive_message_error");
            reveal_strlit("send_message_error");
        }
        let kind = match self {
            WebsocketClientError::ConnectionError(_) => String::from_str("connection_error"),
            WebsocketClientError::DisconnectionError(_) => String::from_str("disconnection_error"),
            WebsocketClientError::ReceiveMessageError(_) => String::from_str(
                "receive_message_error",
            ),
            WebsocketClientError::SendMessageError(_) => String::from_str("send_message_error"),
        };
        let mut fields: Vec<(String, String)> = Vec::new();
        fields.push((String::from_str("type"), kind));
        fields.push((String::from_str("message"), self.message()));
        proof {
            assert(pairs_view(fields@) =~= seq![
                ("type"@, self.kind_view()),
                ("message"@, self.message_view()),
            ]);
        }
        fields
    }
}

/// The Lua callback that an event of a client calls, with its arguments;
/// the id is the client's UUID as text.
#[derive(Clone, Debug, PartialEq, Eq)]
pub enum ClientCallback {
    OnConnect { client_id: String },
    OnDisconnect { client_id: String },
    OnMessage { client_id: String, message: String },
    OnError { client_id: String, error: WebsocketClientError },
}

impl ClientCallback {
    /// The key under which Lua registers this callback.
    pub open spec fn name_view(&self) -> Seq<char> {
        match self {
            ClientCallback::OnConnect { .. } => "on_connect"@,
            ClientCallback::OnDisconnect { .. } => "on_disconnect"@,
            ClientCallback::OnMessage { .. } => "on_message"@,
            ClientCallback::OnError { .. } => "on_error"@,
        }
    }

    /// The key under which Lua registers this callback.
    pub fn name(&self) -> (name: String)
        ensures
            name@ == self.name_view(),
    {
        proof {
            reveal_strlit("on_connect");
            reveal_strlit("on_disconnect");
            reveal_strlit("on_message");
            reveal_strlit("on_error");
        }
        match self {
            ClientCallback::OnConnect { .. } => String::from_str("on_connect"),
            ClientCallback::OnDisconnect { .. } => String::from_str("on_disconnect"),
            ClientCallback::OnMessage { .. } => String::from_str("on_message"),
            ClientCallback::OnError { .. } => String::from_str("on_error"),
        }
    }
}

impl WebsocketClientInboundEvent {
    /// A received text as an event.
    pub fn try_from_string(s: String) -> (r: Result<Self, WebsocketClientError>)
        ensures
            r == Ok::<Self, WebsocketClientError>(WebsocketClientInboundEvent::NewMessage(s)),
    {
        Ok(WebsocketClientInboundEvent::NewMessage(s))
    }

    /// The callback that the event of the client `client_id` calls.
    pub fn into_callback(self, client_id: u128) -> (c: ClientCallback)
        ensures
            match self {
                WebsocketClientInboundEvent::Connected => c matches ClientCallback::OnConnect {
                    client_id: id,
                } && id@ == uuid_text(client_id),
                WebsocketClientInboundEvent::Disconnected => c matches ClientCallback::OnDisconnect {
                    client_id: id,
                } && id@ == uuid_text(client_id),
                WebsocketClientInboundEvent::NewMessage(m) => c matches ClientCallback::OnMessage {
                    client_id: id,
                    message,
                } && id@ == uuid_text(client_id) && message == m,
                WebsocketClientInboundEvent::Error(e) => c matches ClientCallback::OnError {
                    client_id: id,
                    error,
                } && id@ == uuid_text(client_id) && error == e,
            },
    {
        let id = uuid_to_string(client_id);
        match self {
            WebsocketClientInboundEvent::Connected => ClientCallback::OnConnect { client_id: id },
            WebsocketClientInboundEvent::Disconnected => ClientCallback::OnDisconnect {
                client_id: id,
            },
            WebsocketClientInboundEvent::NewMessage(message) => ClientCallback::OnMessage {
                client_id: id,
                message,
            },
            WebsocketClientInboundEvent::Error(error) => ClientCallback::OnError {
                client_id: id,
                error,
            },
        }
    }
}

} // verus!
