use vstd::prelude::*;
use vstd::string::*;

use crate::ids::{is_v4_uuid, new_random_id, uuid_text, uuid_to_string};
use crate::server_events::{WebsocketServerError, WebsocketServerInboundEvent};
use crate::text::pairs_view;

verus! {

/// One connection accepted by a server: its id, the peer's address as text,
/// whether it still runs, and the handle through which the host drives it.
pub struct WebsocketServerClient<H> {
    pub id: u128,
    pub addr: String,
    pub running: bool,
    pub handle: H,
}

impl<H> WebsocketServerClient<H> {
    /// A running connection from `addr` under a fresh random id (a
    /// version-4 UUID).
    pub fn new(addr: String, handle: H) -> (c: Self)
        ensures
            is_v4_uuid(c.id),
            c.addr == addr,
            c.running,
            c.handle == handle,
    {
        WebsocketServerClient { id: new_random_id(), addr, running: true, handle }
    }

    /// Whether the connection still runs, as far as the server knows.
    pub fn is_active(&self) -> (b: bool)
        ensures
            b == self.running,
    {
        self.running
    }

    /// Marks the connection as terminated; the host then asks it to close
    /// gracefully.
    pub fn terminate(&mut self)
        ensures
            !final(self).running,
            final(self).id == old(self).id,
            final(self).addr == old(self).addr,
            final(self).handle == old(self).handle,
    {
        self.running = false;
    }

    /// The event that reports that asking the connection to close failed
    /// with the message `err`.
    pub fn termination_failed(&self, err: String) -> (e: WebsocketServerInboundEvent)
        ensures
            e == WebsocketServerInboundEvent::Error(
                WebsocketServerError::ClientTerminationError(self.id, err),
            ),
    {
        WebsocketServerInboundEvent::Error(WebsocketServerError::ClientTerminationError(self.id, err))
    }

    /// The event that reports that handing a text to the connection failed
    /// with the message `err`.
    pub fn send_failed(&self, err: String) -> (e: WebsocketServerInboundEvent)
        ensures
            e == WebsocketServerInboundEvent::Error(
                WebsocketServerError::SendMessageError(self.id, err),
            ),
    {
        WebsocketServerInboundEvent::Error(WebsocketServerError::SendMessageError(self.id, err))
    }

    /// The connection as a Neovim dictionary: its id under "id" and the
    /// peer's address under "addr".
    pub fn describe(&self) -> (fields: Vec<(String, String)>)
        ensures
            pairs_view(fields@) == seq![("id"@, uuid_text(self.id)), ("addr"@, self.addr@)],
    {
        proof {
            reveal_strlit("id");
            reveal_strlit("addr");
        }
        let mut fields: Vec<(String, String)> = Vec::new();
        fields.push((String::from_str("id"), uuid_to_string(self.id)));
        fields.push((String::from_str("addr"), self.addr.clone()));
        proof {
            assert(pairs_view(fields@) =~= seq![("id"@, uuid_text(self.id)), ("addr"@, self.addr@)]);
        }
        fields
    }
}

} // verus!
