use vstd::prelude::*;
use vstd::string::*;

use crate::decimal::{decimal_chars, decimal_text};
use crate::ids::{parse_uuid, uuid_parse, uuid_text, uuid_to_string};
use crate::registry::{IdRegistry, LookupError};
use crate::server_events::{WebsocketServerError, WebsocketServerInboundEvent};
use crate::text::pairs_view;

verus! {

/// Why the settings of a server were refused.
#[derive(Clone, Copy, Debug, PartialEq, Eq)]
pub enum ServerSetupError {
    /// The server id is not a UUID.
    InvalidServerId,
}

/// What a server is made from: its id and the host and port it listens on.
#[derive(Clone, Debug, PartialEq, Eq)]
pub struct ServerSettings {
    pub id: u128,
    pub host: String,
    pub port: u32,
}

/// The address a server binds: host, colon, port in decimal.
pub open spec fn bind_address_view(host: Seq<char>, port: u32) -> Seq<char> {
    host + ":"@ + decimal_chars(port as nat)
}

impl ServerSettings {
    /// Reads the settings of a server; `server_id` must be a UUID.
    pub fn parse(server_id: &str, host: String, port: u32) -> (r: Result<ServerSettings, ServerSetupError>)
        ensures
            match uuid_parse(server_id@) {
                None => r == Err::<ServerSettings, ServerSetupError>(
                    ServerSetupError::InvalidServerId,
                ),
                Some(id) => r matches Ok(s) && s.id == id && s.host == host && s.port == port,
            },
    {
        match parse_uuid(server_id) {
            Ok(id) => Ok(ServerSettings { id, host, port }),
            Err(_) => Err(ServerSetupError::InvalidServerId),
        }
    }

    /// The address the server binds.
    pub fn bind_address(&self) -> (addr: String)
        ensures
            addr@ == bind_address_view(self.host@, self.port),
    {
        proof {
            reveal_strlit(":");
        }
        let mut addr = self.host.clone();
        addr.append(":");
        let port = decimal_text(self.port);
        addr.append(port.as_str());
        addr
    }

    /// The server as a Neovim dictionary: its id under "id", its host under
    /// "host" and its port in decimal under "port".
    pub fn describe(&self) -> (fields: Vec<(String, String)>)
        ensures
            pairs_view(fields@) == seq![
                ("id"@, uuid_text(self.id)),
                ("host"@, self.host@),
                ("port"@, decimal_chars(self.port as nat)),
            ],
    {
        proof {
            reveal_strlit("id");
            reveal_strlit("host");
            reveal_strlit("port");
        }
        let mut fields: Vec<(String, String)> = Vec::new();
        fields.push((String::from_str("id"), uuid_to_string(self.id)));
        fields.push((String::from_str("host"), self.host.clone()));
        fields.push((String::from_str("port"), decimal_text(self.port)));
        proof {
            assert(pairs_view(fields@) =~= seq![
                ("id"@, uuid_text(self.id)),
                ("host"@, self.host@),
                ("port"@, decimal_chars(self.port as nat)),
            ]);
        }
        fields
    }
}

/// A server of the plugin: its settings, whether it was started, and the
/// handle through which the host drives it.
pub struct WebsocketServer<H> {
    pub settings: ServerSettings,
    pub running: bool,
    pub handle: H,
}

impl<H> WebsocketServer<H> {
    /// A started server made of its settings and its handle.
    pub fn new(settings: ServerSettings, handle: H) -> (s: Self)
        ensures
            s.settings == settings,
            s.running,
            s.handle == handle,
    {
        WebsocketServer { settings, running: true, handle }
    }

    /// The server's id.
    pub fn id(&self) -> (id: u128)
        ensures
            id == self.settings.id,
    {
        self.settings.id
    }

    /// Whether the server was started.
    pub fn is_active(&self) -> (b: bool)
        ensures
            b == self.running,
    {
        self.running
    }

    /// The event that reports that asking the server to stop failed with the
    /// message `err`.
    pub fn termination_failed(&self, err: String) -> (e: WebsocketServerInboundEvent)
        ensures
            e == WebsocketServerInboundEvent::Error(WebsocketServerError::ServerTerminationError(err)),
    {
        WebsocketServerInboundEvent::Error(WebsocketServerError::ServerTerminationError(err))
    }

    /// The event that reports that handing a broadcast to the server's loop
    /// failed with the message `err`.
    pub fn broadcast_failed(&self, err: String) -> (e: WebsocketServerInboundEvent)
        ensures
            e == WebsocketServerInboundEvent::Error(WebsocketServerError::BroadcastMessageError(err)),
    {
        WebsocketServerInboundEvent::Error(WebsocketServerError::BroadcastMessageError(err))
    }
}

/// The servers of the plugin, by id.
pub struct WebsocketServerRegistry<H> {
    servers: IdRegistry<WebsocketServer<H>>,
}

impl<H> View for WebsocketServerRegistry<H> {
    type V = Map<u128, WebsocketServer<H>>;

    closed spec fn view(&self) -> Map<u128, WebsocketServer<H>> {
        self.servers@
    }
}

impl<H> WebsocketServerRegistry<H> {
    /// The registry is consistent.
    pub closed spec fn wf(&self) -> bool {
        self.servers.wf()
    }

    /// The ids held, oldest registration first.
    pub closed spec fn order(&self) -> Seq<u128> {
        self.servers.order()
    }

    /// The order lists exactly the registered ids, each once.
    pub proof fn lemma_order(&self)
        requires
            self.wf(),
        ensures
            self.order().no_duplicates(),
            forall|k: u128| #[trigger] self@.contains_key(k) <==> self.order().contains(k),
    {
        self.servers.lemma_order();
    }

    /// An empty registry.
    pub fn new() -> (r: Self)
        ensures
            r.wf(),
            r@ == Map::<u128, WebsocketServer<H>>::empty(),
    {
        WebsocketServerRegistry { servers: IdRegistry::new() }
    }

    /// Registers `server` under its id, in place of any server held under it.
    pub fn insert(&mut self, server: WebsocketServer<H>)
        requires
            old(self).wf(),
        ensures
            final(self).wf(),
            final(self)@ == old(self)@.insert(server.settings.id, server),
    {
        let id = server.id();
        self.servers.insert(id, server);
    }

    /// The server registered under `id`, if any.
    pub fn get(&self, id: u128) -> (r: Option<&WebsocketServer<H>>)
        requires
            self.wf(),
        ensures
            match r {
                Some(s) => self@.contains_key(id) && *s == self@[id],
                None => !self@.contains_key(id),
            },
    {
        self.servers.get(id)
    }

    /// The server registered under `id`, if any, for changing in place.
    pub fn get_mut(&mut self, id: u128) -> (r: Option<&mut WebsocketServer<H>>)
        requires
            old(self).wf(),
        ensures
            final(self).wf(),
            old(self)@.contains_key(id) ==> r.is_some() && *r.unwrap() == old(self)@[id]
                && final(self)@ == old(self)@.insert(id, *final(r.unwrap())),
            !old(self)@.contains_key(id) ==> r.is_none() && final(self)@ == old(self)@,
    {
        self.servers.get_mut(id)
    }

    /// Unregisters the server held under `id`, handing it back.
    pub fn remove(&mut self, id: u128) -> (r: Option<WebsocketServer<H>>)
        requires
            old(self).wf(),
        ensures
            final(self).wf(),
            final(self)@ == old(self)@.remove(id),
            match r {
                Some(s) => old(self)@.contains_key(id) && s == old(self)@[id],
                None => !old(self)@.contains_key(id),
            },
    {
        self.servers.remove(id)
    }

    /// Every registered server with its id, oldest registration first.
    pub fn get_all(&self) -> (all: Vec<(u128, &WebsocketServer<H>)>)
        requires
            self.wf(),
        ensures
            self.order().no_duplicates(),
            forall|k: u128| #[trigger] self@.contains_key(k) <==> self.order().contains(k),
            all@.len() == self.order().len(),
            forall|i: int|
                0 <= i < all@.len() ==> (#[trigger] all@[i]).0 == self.order()[i]
                    && *all@[i].1 == self@[self.order()[i]],
    {
        self.servers.get_all()
    }

    /// The server named by the text `server_id`.
    pub fn lookup(&self, server_id: &str) -> (r: Result<&WebsocketServer<H>, LookupError>)
        requires
            self.wf(),
        ensures
            match uuid_parse(server_id@) {
                None => r is Err && r->Err_0 == LookupError::InvalidId,
                Some(id) => if self@.contains_key(id) {
                    r is Ok && *r->Ok_0 == self@[id]
                } else {
                    r is Err && r->Err_0 == LookupError::NotFound
                },
            },
    {
        match parse_uuid(server_id) {
            Ok(id) => match self.servers.get(id) {
                Some(s) => Ok(s),
                None => Err(LookupError::NotFound),
            },
            Err(_) => Err(LookupError::InvalidId),
        }
    }

    /// The server named by the text `server_id`, for changing in place.
    pub fn lookup_mut(&mut self, server_id: &str) -> (r: Result<&mut WebsocketServer<H>, LookupError>)
        requires
            old(self).wf(),
        ensures
            final(self).wf(),
            match uuid_parse(server_id@) {
                None => r is Err && r->Err_0 == LookupError::InvalidId && final(self)@ == old(self)@,
                Some(id) => if old(self)@.contains_key(id) {
                    r is Ok && *r->Ok_0 == old(self)@[id] && final(self)@ == old(self)@.insert(
                        id,
                        *final(r->Ok_0),
                    )
                } else {
                    r is Err && r->Err_0 == LookupError::NotFound && final(self)@ == old(self)@
                },
            },
    {
        match parse_uuid(server_id) {
            Ok(id) => match self.servers.get_mut(id) {
                Some(s) => Ok(s),
                None => Err(LookupError::NotFound),
            },
            Err(_) => Err(LookupError::InvalidId),
        }
    }

    /// Unregisters the server named by the text `server_id`, handing it
    /// back.
    pub fn remove_by_text(&mut self, server_id: &str) -> (r: Result<WebsocketServer<H>, LookupError>)
        requires
            old(self).wf(),
        ensures
            final(self).wf(),
            match uuid_parse(server_id@) {
                None => r is Err && r->Err_0 == LookupError::InvalidId && final(self)@ == old(self)@,
                Some(id) => if old(self)@.contains_key(id) {
                    r is Ok && r->Ok_0 == old(self)@[id] && final(self)@ == old(self)@.remove(id)
                } else {
                    r is Err && r->Err_0 == LookupError::NotFound && final(self)@ == old(self)@
                },
            },
    {
        match parse_uuid(server_id) {
            Ok(id) => match self.servers.remove(id) {
                Some(s) => Ok(s),
                None => {
                    proof {
                        assert(self@ =~= old(self)@);
                    }
                    Err(LookupError::NotFound)
                },
            },
            Err(_) => Err(LookupError::InvalidId),
        }
    }

    /// Whether the server named by the text `server_id` was started.
    pub fn is_active(&self, server_id: &str) -> (r: Result<bool, LookupError>)
        requires
            self.wf(),
        ensures
            match uuid_parse(server_id@) {
                None => r == Err::<bool, LookupError>(LookupError::InvalidId),
                Some(id) => if self@.contains_key(id) {
                    r == Ok::<bool, LookupError>(self@[id].running)
                } else {
                    r == Err::<bool, LookupError>(LookupError::NotFound)
                },
            },
    {
        match self.lookup(server_id) {
            Ok(s) => Ok(s.is_active()),
            Err(e) => Err(e),
        }
    }

    /// Every registered server as a Neovim dictionary, keyed by the text of
    /// the id it is registered under, oldest registration first; the
    /// dictionary holds that text under "id", the host under "host" and the
    /// port in decimal under "port".
    pub fn describe_all(&self) -> (all: Vec<(String, Vec<(String, String)>)>)
        requires
            self.wf(),
        ensures
            self.order().no_duplicates(),
            forall|k: u128| #[trigger] self@.contains_key(k) <==> self.order().contains(k),
            all@.len() == self.order().len(),
            forall|i: int|
                0 <= i < all@.len() ==> {
                    let s = self@[self.order()[i]];
                    &&& (#[trigger] all@[i]).0@ == uuid_text(self.order()[i])
                    &&& pairs_view(all@[i].1@) == seq![
                        ("id"@, uuid_text(self.order()[i])),
                        ("host"@, s.settings.host@),
                        ("port"@, decimal_chars(s.settings.port as nat)),
                    ]
                },
    {
        let entries = self.servers.get_all();
        let mut all: Vec<(String, Vec<(String, String)>)> = Vec::new();
        let mut i: usize = 0;
        while i < entries.len()
            invariant
                i <= entries@.len(),
                entries@.len() == self.order().len(),
                forall|j: int|
                    0 <= j < entries@.len() ==> (#[trigger] entries@[j]).0 == self.order()[j]
                        && *entries@[j].1 == self@[self.order()[j]],
                all@.len() == i,
                forall|j: int|
                    0 <= j < i ==> {
                        let s = self@[self.order()[j]];
                        &&& (#[trigger] all@[j]).0@ == uuid_text(self.order()[j])
                        &&& pairs_view(all@[j].1@) == seq![
                            ("id"@, uuid_text(self.order()[j])),
                            ("host"@, s.settings.host@),
                            ("port"@, decimal_chars(s.settings.port as nat)),
                        ]
                    },
            decreases entries@.len() - i,
        {
            let (id, s) = entries[i];
            proof {
                reveal_strlit("id");
                reveal_strlit("host");
                reveal_strlit("port");
            }
            let text = uuid_to_string(id);
            let mut fields: Vec<(String, String)> = Vec::new();
            fields.push((String::from_str("id"), text.clone()));
            fields.push((String::from_str("host"), s.settings.host.clone()));
            fields.push((String::from_str("port"), decimal_text(s.settings.port)));
            proof {
                assert(pairs_view(fields@) =~= seq![
                    ("id"@, uuid_text(id)),
                    ("host"@, s.settings.host@),
                    ("port"@, decimal_chars(s.settings.port as nat)),
                ]);
            }
            all.push((text, fields));
            i = i + 1;
        }
        all
    }
}

} // verus!
