//! Connection bookkeeping for a Neovim WebSocket plugin: message replay
//! buffers, id-keyed registries of clients and servers, the handshake
//! request of a client, the event tables that drive a connection, and the
//! rendering of events and errors into Lua callback arguments.

mod decimal;
pub mod ids;
pub mod registry;
pub mod replay;
pub mod text;
pub mod client_events;
pub mod client_setup;
pub mod client_registry;
pub mod client_session;
pub mod server_events;
pub mod server_client;
pub mod server_state;
pub mod server_session;
pub mod server_registry;
pub mod standalone_client;

pub use decimal::{decimal_chars, decimal_text, digit_char};
