use vstd::prelude::*;

use crate::client_events::{WebsocketClientError, WebsocketClientInboundEvent};
use crate::client_setup::ClientSettings;
use crate::ids::{parse_uuid, uuid_parse};
use crate::registry::{IdRegistry, LookupError};

verus! {

/// A client of the plugin: its settings and the handle through which the
/// host drives its connection.
pub struct WebsocketClient<H> {
    pub settings: ClientSettings,
    pub handle: H,
}

impl<H> WebsocketClient<H> {
    /// A client made of its settings and its handle.
    pub fn new(settings: ClientSettings, handle: H) -> (c: Self)
        ensures
            c.settings == settings,
            c.handle == handle,
    {
        WebsocketClient { settings, handle }
    }

    /// The client's id.
    pub fn id(&self) -> (id: u128)
        ensures
            id == self.settings.id,
    {
        self.settings.id
    }

    /// The event that reports that handing a close request or a text to the
    /// client's connection failed with the message `err`.
    pub fn hand_over_failed(&self, err: String) -> (e: WebsocketClientInboundEvent)
        ensures
            e == WebsocketClientInboundEvent::Error(WebsocketClientError::SendMessageError(err)),
    {
        WebsocketClientInboundEvent::Error(WebsocketClientError::SendMessageError(err))
    }
}

/// Whether the registry `clients` reports the client named by `text` as
/// active: `None` where `text` is no UUID.
pub open spec fn client_active_view<H>(clients: Map<u128, WebsocketClient<H>>, text: Seq<char>) -> Option<bool> {
    match uuid_parse(text) {
        None => None,
        Some(id) => Some(clients.contains_key(id)),
    }
}

/// The clients of the plugin, by id.
pub struct WebsocketClientRegistry<H> {
    clients: IdRegistry<WebsocketClient<H>>,
}

impl<H> View for WebsocketClientRegistry<H> {
    type V = Map<u128, WebsocketClient<H>>;

    closed spec fn view(&self) -> Map<u128, WebsocketClient<H>> {
        self.clients@
    }
}

impl<H> WebsocketClientRegistry<H> {
    /// The registry is consistent.
    pub closed spec fn wf(&self) -> bool {
        self.clients.wf()
    }

    /// The ids held, oldest registration first.
    pub closed spec fn order(&self) -> Seq<u128> {
        self.clients.order()
    }

    /// The order lists exactly the registered ids, each once.
    pub proof fn lemma_order(&self)
        requires
            self.wf(),
        ensures
            self.order().no_duplicates(),
            forall|k: u128| #[trigger] self@.contains_key(k) <==> self.order().contains(k),
    {
        self.clients.lemma_order();
    }

    /// An empty registry.
    pub fn new() -> (r: Self)
        ensures
            r.wf(),
            r@ == Map::<u128, WebsocketClient<H>>::empty(),
    {
        WebsocketClientRegistry { clients: IdRegistry::new() }
    }

    /// Registers `client` under its id, in place of any client held under it.
    pub fn insert(&mut self, client: WebsocketClient<H>)
        requires
            old(self).wf(),
        ensures
            final(self).wf(),
            final(self)@ == old(self)@.insert(client.settings.id, client),
    {
        let id = client.id();
        self.clients.insert(id, client);
    }

    /// The client registered under `id`, if any.
    pub fn get(&self, id: u128) -> (r: Option<&WebsocketClient<H>>)
        requires
            self.wf(),
        ensures
            match r {
                Some(c) => self@.contains_key(id) && *c == self@[id],
                None => !self@.contains_key(id),
            },
    {
        self.clients.get(id)
    }

    /// The client registered under `id`, if any, for changing in place.
    pub fn get_mut(&mut self, id: u128) -> (r: Option<&mut WebsocketClient<H>>)
        requires
            old(self).wf(),
        ensures
            final(self).wf(),
            old(self)@.contains_key(id) ==> r.is_some() && *r.unwrap() == old(self)@[id]
                && final(self)@ == old(self)@.insert(id, *final(r.unwrap())),
            !old(self)@.contains_key(id) ==> r.is_none() && final(self)@ == old(self)@,
    {
        self.clients.get_mut(id)
    }

    /// Unregisters the client held under `id`, handing it back.
    pub fn remove(&mut self, id: u128) -> (r: Option<WebsocketClient<H>>)
        requires
            old(self).wf(),
        ensures
            final(self).wf(),
            final(self)@ == old(self)@.remove(id),
            match r {
                Some(c) => old(self)@.contains_key(id) && c == old(self)@[id],
                None => !old(self)@.contains_key(id),
            },
    {
        self.clients.remove(id)
    }

    /// Every registered client with its id, oldest registration first.
    pub fn get_all(&self) -> (all: Vec<(u128, &WebsocketClient<H>)>)
        requires
            self.wf(),
        ensures
            self.order().no_duplicates(),
            forall|k: u128| #[trigger] self@.contains_key(k) <==> self.order().contains(k),
            all@.len() == self.order().len(),
            forall|i: int|
                0 <= i < all@.len() ==> (#[trigger] all@[i]).0 == self.order()[i]
                    && *all@[i].1 == self@[self.order()[i]],
    {
        self.clients.get_all()
    }

    /// Whether the client named by the text `client_id` is registered;
    /// `None` where the text is no UUID.
    pub fn is_active(&self, client_id: &str) -> (r: Option<bool>)
        requires
            self.wf(),
        ensures
            r == client_active_view(self@, client_id@),
    {
        match parse_uuid(client_id) {
            Ok(id) => Some(self.clients.contains(id)),
            Err(_) => None,
        }
    }

    /// The client named by the text `client_id`, for changing in place.
    pub fn lookup_mut(&mut self, client_id: &str) -> (r: Result<&mut WebsocketClient<H>, LookupError>)
        requires
            old(self).wf(),
        ensures
            final(self).wf(),
            match uuid_parse(client_id@) {
                None => r is Err && r->Err_0 == LookupError::InvalidId && final(self)@ == old(self)@,
                Some(id) => if old(self)@.contains_key(id) {
                    r is Ok && *r->Ok_0 == old(self)@[id] && final(self)@ == old(self)@.insert(
                        id,
                        *final(r->Ok_0),
                    )
                } else {
                    r is Err && r->Err_0 == LookupError::NotFound && final(self)@ == old(self)@
                },
            },
    {
        match parse_uuid(client_id) {
            Ok(id) => match self.clients.get_mut(id) {
                Some(c) => Ok(c),
                None => Err(LookupError::NotFound),
            },
            Err(_) => Err(LookupError::InvalidId),
        }
    }
}

/// A client registered under the id read from `text` is reported active
/// under that text.
pub proof fn law_registered_client_is_active<H>(
    clients: Map<u128, WebsocketClient<H>>,
    client: WebsocketClient<H>,
    text: Seq<char>,
)
    requires
        uuid_parse(text) == Some(client.settings.id),
    ensures
        client_active_view(clients.insert(client.settings.id, client), text) == Some(true),
{
}

/// Once the client under the id read from `text` is unregistered, it is
/// reported inactive under that text.
pub proof fn law_unregistered_client_is_inactive<H>(
    clients: Map<u128, WebsocketClient<H>>,
    id: u128,
    text: Seq<char>,
)
    requires
        uuid_parse(text) == Some(id),
    ensures
        client_active_view(clients.remove(id), text) == Some(false),
{
}

} // verus!
