use vstd::prelude::*;
use vstd::string::*;

use crate::ids::{parse_uuid, uuid_parse, uuid_text, uuid_to_string};
use crate::registry::{IdRegistry, LookupError};
use crate::replay::OutboundMessageReplayBuffer;
use crate::server_client::WebsocketServerClient;
use crate::text::{pairs_view, strings_view};

verus! {

/// What the connections of one server share: the accepted connections by
/// id, and every message broadcast so far.
pub struct ServerState<H> {
    clients: IdRegistry<WebsocketServerClient<H>>,
    message_replay_buffer: OutboundMessageReplayBuffer,
}

/// A connection as it is after being terminated.
pub open spec fn terminated<H>(c: WebsocketServerClient<H>) -> WebsocketServerClient<H> {
    WebsocketServerClient { running: false, ..c }
}

impl<H> ServerState<H> {
    /// The state is consistent.
    pub closed spec fn wf(&self) -> bool {
        self.clients.wf()
    }

    /// The accepted connections, by id.
    pub closed spec fn clients(&self) -> Map<u128, WebsocketServerClient<H>> {
        self.clients@
    }

    /// The ids of the accepted connections, oldest first.
    pub closed spec fn order(&self) -> Seq<u128> {
        self.clients.order()
    }

    /// Every message broadcast so far, oldest first.
    pub closed spec fn replay(&self) -> Seq<Seq<char>> {
        self.message_replay_buffer@
    }

    /// Facts of every consistent state: the order lists each accepted
    /// connection once.
    pub proof fn lemma_order(&self)
        requires
            self.wf(),
        ensures
            self.order().no_duplicates(),
            forall|k: u128| #[trigger] self.clients().contains_key(k) <==> self.order().contains(k),
    {
        self.clients.lemma_order();
    }

    /// No connection and no message yet.
    pub fn new() -> (s: Self)
        ensures
            s.wf(),
            s.clients() == Map::<u128, WebsocketServerClient<H>>::empty(),
            s.order() == Seq::<u128>::empty(),
            s.replay() == Seq::<Seq<char>>::empty(),
    {
        ServerState { clients: IdRegistry::new(), message_replay_buffer: OutboundMessageReplayBuffer::new() }
    }

    /// Takes in a connection whose handshake finished: hands back every
    /// message broadcast so far, oldest first, for it to be sent before any
    /// later one, and registers it under its id.
    pub fn admit_client(&mut self, client: WebsocketServerClient<H>) -> (queued: Vec<String>)
        requires
            old(self).wf(),
        ensures
            final(self).wf(),
            strings_view(queued@) == old(self).replay(),
            final(self).replay() == old(self).replay(),
            final(self).clients() == old(self).clients().insert(client.id, client),
            final(self).order() == if old(self).clients().contains_key(client.id) {
                old(self).order()
            } else {
                old(self).order().push(client.id)
            },
    {
        let queued = self.message_replay_buffer.messages();
        let id = client.id;
        self.clients.insert(id, client);
        queued
    }

    /// Keeps `message` for connections that come later.
    pub fn record_broadcast(&mut self, message: String)
        requires
            old(self).wf(),
        ensures
            final(self).wf(),
            final(self).replay() == old(self).replay().push(message@),
            final(self).clients() == old(self).clients(),
            final(self).order() == old(self).order(),
    {
        self.message_replay_buffer.add(message);
    }

    /// The connections that a broadcast goes to: all accepted ones, oldest
    /// first.
    pub fn broadcast_targets(&self) -> (ids: Vec<u128>)
        requires
            self.wf(),
        ensures
            ids@ == self.order(),
            self.order().no_duplicates(),
            forall|k: u128| #[trigger] self.clients().contains_key(k) <==> self.order().contains(k),
    {
        let all = self.clients.get_all();
        let mut ids: Vec<u128> = Vec::new();
        let mut i: usize = 0;
        while i < all.len()
            invariant
                i <= all@.len(),
                all@.len() == self.order().len(),
                forall|j: int| 0 <= j < all@.len() ==> (#[trigger] all@[j]).0 == self.order()[j],
                ids@ == self.order().subrange(0, i as int),
            decreases all@.len() - i,
        {
            ids.push(all[i].0);
            i = i + 1;
            proof {
                assert(ids@ =~= self.order().subrange(0, i as int));
            }
        }
        proof {
            assert(self.order().subrange(0, i as int) =~= self.order());
        }
        ids
    }

    /// Every message broadcast so far, oldest first.
    pub fn replay_messages(&self) -> (messages: Vec<String>)
        ensures
            strings_view(messages@) == self.replay(),
    {
        self.message_replay_buffer.messages()
    }

    /// The connection registered under `id`, if any.
    pub fn get_client(&self, id: u128) -> (r: Option<&WebsocketServerClient<H>>)
        requires
            self.wf(),
        ensures
            match r {
                Some(c) => self.clients().contains_key(id) && *c == self.clients()[id],
                None => !self.clients().contains_key(id),
            },
    {
        self.clients.get(id)
    }

    /// The connection named by the text `client_id`.
    pub fn lookup_client(&self, client_id: &str) -> (r: Result<&WebsocketServerClient<H>, LookupError>)
        requires
            self.wf(),
        ensures
            match uuid_parse(client_id@) {
                None => r is Err && r->Err_0 == LookupError::InvalidId,
                Some(id) => if self.clients().contains_key(id) {
                    r is Ok && *r->Ok_0 == self.clients()[id]
                } else {
                    r is Err && r->Err_0 == LookupError::NotFound
                },
            },
    {
        match parse_uuid(client_id) {
            Ok(id) => match self.clients.get(id) {
                Some(c) => Ok(c),
                None => Err(LookupError::NotFound),
            },
            Err(_) => Err(LookupError::InvalidId),
        }
    }

    /// Marks the accepted connection `id` as terminated and hands it back,
    /// for it to be asked to close gracefully. That connection stays
    /// accepted, and no other connection and no message changes.
    pub fn terminate_client_by_id(&mut self, id: u128) -> (c: &WebsocketServerClient<H>)
        requires
            old(self).wf(),
            old(self).clients().contains_key(id),
        ensures
            final(self).wf(),
            final(self).order() == old(self).order(),
            final(self).replay() == old(self).replay(),
            *c == terminated(old(self).clients()[id]),
            final(self).clients() == old(self).clients().insert(id, terminated(old(self).clients()[id])),
    {
        match self.clients.get_mut(id) {
            Some(c) => {
                c.terminate();
            },
            None => {},
        }
        proof {
            assert(self.clients@[id] == terminated(old(self).clients()[id]));
        }
        self.clients.get(id).unwrap()
    }

    /// Marks the connection named by the text `client_id` as terminated and
    /// hands it back, for it to be asked to close gracefully. That connection
    /// stays accepted, and no other connection and no message changes. A
    /// text that is no UUID, or names no accepted connection, changes nothing
    /// and is refused with the matching error (the plugin then stops with a
    /// panic, as it always has on such a text).
    pub fn terminate_client(&mut self, client_id: &str) -> (r: Result<
        &WebsocketServerClient<H>,
        LookupError,
    >)
        requires
            old(self).wf(),
        ensures
            final(self).wf(),
            final(self).order() == old(self).order(),
            final(self).replay() == old(self).replay(),
            match uuid_parse(client_id@) {
                None => r is Err && r->Err_0 == LookupError::InvalidId && final(self).clients()
                    == old(self).clients(),
                Some(id) => if old(self).clients().contains_key(id) {
                    r is Ok && *r->Ok_0 == terminated(old(self).clients()[id])
                        && final(self).clients() == old(self).clients().insert(
                        id,
                        terminated(old(self).clients()[id]),
                    )
                } else {
                    r is Err && r->Err_0 == LookupError::NotFound
                        && final(self).clients() == old(self).clients()
                },
            },
    {
        match parse_uuid(client_id) {
            Ok(id) => {
                if self.clients.contains(id) {
                    Ok(self.terminate_client_by_id(id))
                } else {
                    Err(LookupError::NotFound)
                }
            },
            Err(_) => Err(LookupError::InvalidId),
        }
    }

    /// Whether the connection named by the text `client_id` still runs.
    pub fn is_client_active(&self, client_id: &str) -> (r: Result<bool, LookupError>)
        requires
            self.wf(),
        ensures
            r == client_activity(self.clients(), client_id@),
    {
        match parse_uuid(client_id) {
            Ok(id) => match self.clients.get(id) {
                Some(c) => Ok(c.is_active()),
                None => Err(LookupError::NotFound),
            },
            Err(_) => Err(LookupError::InvalidId),
        }
    }

    /// Every accepted connection as a Neovim dictionary, keyed by the text
    /// of the id it is registered under, oldest first; the dictionary holds
    /// that text under "id" and the peer's address under "addr".
    pub fn describe_clients(&self) -> (all: Vec<(String, Vec<(String, String)>)>)
        requires
            self.wf(),
        ensures
            self.order().no_duplicates(),
            forall|k: u128| #[trigger] self.clients().contains_key(k) <==> self.order().contains(k),
            all@.len() == self.order().len(),
            forall|i: int|
                0 <= i < all@.len() ==> (#[trigger] all@[i]).0@ == uuid_text(self.order()[i])
                    && pairs_view(all@[i].1@) == seq![
                    ("id"@, uuid_text(self.order()[i])),
                    ("addr"@, self.clients()[self.order()[i]].addr@),
                ],
    {
        let entries = self.clients.get_all();
        let mut all: Vec<(String, Vec<(String, String)>)> = Vec::new();
        let mut i: usize = 0;
        while i < entries.len()
            invariant
                i <= entries@.len(),
                entries@.len() == self.order().len(),
                forall|j: int|
                    0 <= j < entries@.len() ==> (#[trigger] entries@[j]).0 == self.order()[j]
                        && *entries@[j].1 == self.clients()[self.order()[j]],
                all@.len() == i,
                forall|j: int|
                    0 <= j < i ==> (#[trigger] all@[j]).0@ == uuid_text(self.order()[j])
                        && pairs_view(all@[j].1@) == seq![
                        ("id"@, uuid_text(self.order()[j])),
                        ("addr"@, self.clients()[self.order()[j]].addr@),
                    ],
            decreases entries@.len() - i,
        {
            let (id, c) = entries[i];
            proof {
                reveal_strlit("id");
                reveal_strlit("addr");
            }
            let text = uuid_to_string(id);
            let mut fields: Vec<(String, String)> = Vec::new();
            fields.push((String::from_str("id"), text.clone()));
            fields.push((String::from_str("addr"), c.addr.clone()));
            proof {
                assert(pairs_view(fields@) =~= seq![("id"@, uuid_text(id)), ("addr"@, c.addr@)]);
            }
            all.push((text, fields));
            i = i + 1;
        }
        all
    }
}

/// What asking whether the connection named by `text` still runs answers,
/// given the accepted connections.
pub open spec fn client_activity<H>(
    clients: Map<u128, WebsocketServerClient<H>>,
    text: Seq<char>,
) -> Result<bool, LookupError> {
    match uuid_parse(text) {
        None => Err(LookupError::InvalidId),
        Some(id) => if clients.contains_key(id) {
            Ok(clients[id].running)
        } else {
            Err(LookupError::NotFound)
        },
    }
}

/// A connection that was terminated is reported as no longer running under
/// the text of its id.
pub proof fn law_terminated_client_is_inactive<H>(
    clients: Map<u128, WebsocketServerClient<H>>,
    id: u128,
    text: Seq<char>,
)
    requires
        uuid_parse(text) == Some(id),
        clients.contains_key(id),
    ensures
        client_activity(clients.insert(id, terminated(clients[id])), text) == Ok::<bool, LookupError>(
            false,
        ),
{
}

/// The texts a broadcast of `message` sends, one per connection in
/// `order`, in that order.
pub open spec fn fanout(order: Seq<u128>, message: Seq<char>) -> Seq<(u128, Seq<char>)> {
    order.map_values(|id: u128| (id, message))
}

/// The texts among `sends` that go to the connection `id`, in order.
pub open spec fn deliveries_to(id: u128, sends: Seq<(u128, Seq<char>)>) -> Seq<Seq<char>>
    decreases sends.len(),
{
    if sends.len() == 0 {
        seq![]
    } else {
        let earlier = deliveries_to(id, sends.drop_last());
        if sends.last().0 == id {
            earlier.push(sends.last().1)
        } else {
            earlier
        }
    }
}

/// A broadcast reaches no connection that is not accepted.
pub proof fn law_broadcast_misses_unaccepted_connections(id: u128, order: Seq<u128>, message: Seq<char>)
    requires
        !order.contains(id),
    ensures
        deliveries_to(id, fanout(order, message)) == Seq::<Seq<char>>::empty(),
    decreases order.len(),
{
    if order.len() > 0 {
        assert(!order.drop_last().contains(id)) by {
            if order.drop_last().contains(id) {
                let j = order.drop_last().index_of(id);
                assert(order[j] == id);
            }
        }
        law_broadcast_misses_unaccepted_connections(id, order.drop_last(), message);
        assert(fanout(order, message).drop_last() =~= fanout(order.drop_last(), message));
    }
}

/// A broadcast reaches every accepted connection exactly once.
pub proof fn law_broadcast_reaches_each_connection_once(id: u128, order: Seq<u128>, message: Seq<char>)
    requires
        order.no_duplicates(),
        order.contains(id),
    ensures
        deliveries_to(id, fanout(order, message)) == seq![message],
    decreases order.len(),
{
    let rest = order.drop_last();
    assert(fanout(order, message).drop_last() =~= fanout(rest, message));
    if order.last() == id {
        assert(!rest.contains(id)) by {
            if rest.contains(id) {
                let j = rest.index_of(id);
                assert(order[j] == id && j != order.len() - 1);
            }
        }
        law_broadcast_misses_unaccepted_connections(id, rest, message);
        assert(Seq::<Seq<char>>::empty().push(message) =~= seq![message]);
    } else {
        assert(rest.contains(id)) by {
            let j = order.index_of(id);
            assert(j != order.len() - 1);
            assert(rest[j] == id);
        }
        assert(rest.no_duplicates());
        law_broadcast_reaches_each_connection_once(id, rest, message);
    }
}

/// A call on a server, as it bears on which connections are accepted, on
/// the kept messages and on what each connection is handed: admitting a
/// connection (`admit_client`), or broadcasting a text (`record_broadcast`,
/// then the accept loop's step on that broadcast, `server_loop_step`).
pub enum HubCall {
    Admit(u128),
    Broadcast(Seq<char>),
}

/// How the accepted connections and the kept messages go from `before` to
/// `after` through `call`, as the contracts of those functions state it.
pub open spec fn hub_step(
    before: (Seq<u128>, Seq<Seq<char>>),
    after: (Seq<u128>, Seq<Seq<char>>),
    call: HubCall,
) -> bool {
    match call {
        HubCall::Admit(id) => after.1 == before.1 && after.0 == if before.0.contains(id) {
            before.0
        } else {
            before.0.push(id)
        },
        HubCall::Broadcast(data) => after.0 == before.0 && after.1 == before.1.push(data),
    }
}

/// The texts that the connection `id` is handed through the first `n`
/// calls: when it is admitted, the kept messages (`admit_client`'s queue);
/// at each broadcast, what the fan-out over the connections accepted then
/// sends it (`server_loop_step`'s actions).
pub open spec fn handed_to(
    id: u128,
    states: Seq<(Seq<u128>, Seq<Seq<char>>)>,
    calls: Seq<HubCall>,
    n: nat,
) -> Seq<Seq<char>>
    decreases n,
{
    if n == 0 {
        seq![]
    } else {
        let i = n - 1;
        let earlier = handed_to(id, states, calls, (n - 1) as nat);
        match calls[i] {
            HubCall::Admit(x) => if x == id {
                earlier + states[i].1
            } else {
                earlier
            },
            HubCall::Broadcast(data) => earlier + deliveries_to(id, fanout(states[i].0, data)),
        }
    }
}

proof fn lemma_handed_to(
    id: u128,
    states: Seq<(Seq<u128>, Seq<Seq<char>>)>,
    calls: Seq<HubCall>,
    k: int,
    n: nat,
)
    requires
        states.len() == calls.len() + 1,
        forall|i: int| 0 <= i < calls.len() ==> hub_step(states[i], states[i + 1], #[trigger] calls[i]),
        states[0].0.no_duplicates(),
        !states[0].0.contains(id),
        0 <= k < calls.len(),
        calls[k] == HubCall::Admit(id),
        forall|i: int| 0 <= i < calls.len() && i != k ==> #[trigger] calls[i] != HubCall::Admit(id),
        n <= calls.len(),
    ensures
        states[n as int].0.no_duplicates(),
        n <= k ==> handed_to(id, states, calls, n) == Seq::<Seq<char>>::empty() && !states[n as int].0.contains(id),
        n > k ==> handed_to(id, states, calls, n) == states[n as int].1 && states[n as int].0.contains(id),
    decreases n,
{
    if n > 0 {
        let i = n - 1;
        lemma_handed_to(id, states, calls, k, (n - 1) as nat);
        let before = states[i];
        let after = states[i + 1];
        assert(hub_step(before, after, calls[i]));
        let earlier = handed_to(id, states, calls, (n - 1) as nat);
        match calls[i] {
            HubCall::Admit(x) => {
                if !before.0.contains(x) {
                    assert forall|a: int, b: int|
                        0 <= a < after.0.len() && 0 <= b < after.0.len() && a != b implies after.0[a]
                        != after.0[b] by {
                        if a == before.0.len() {
                            assert(before.0[b] != x);
                        } else if b == before.0.len() {
                            assert(before.0[a] != x);
                        }
                    }
                    if x != id {
                        assert(after.0.contains(id) == before.0.contains(id)) by {
                            if after.0.contains(id) {
                                let j = after.0.index_of(id);
                                assert(before.0[j] == id);
                            }
                            if before.0.contains(id) {
                                let j = before.0.index_of(id);
                                assert(after.0[j] == id);
                            }
                        }
                    } else {
                        assert(after.0[before.0.len() as int] == id);
                    }
                }
                if x == id {
                    assert(i == k);
                    assert(earlier + before.1 =~= before.1);
                }
            },
            HubCall::Broadcast(data) => {
                if i < k {
                    law_broadcast_misses_unaccepted_connections(id, before.0, data);
                    assert(earlier + Seq::<Seq<char>>::empty() =~= earlier);
                } else {
                    law_broadcast_reaches_each_connection_once(id, before.0, data);
                }
            },
        }
    }
}

/// Late joiners miss nothing: a connection admitted once into a server
/// (not accepted before) is handed, over any series of admissions and
/// broadcasts, exactly the kept messages at the end: those broadcast before
/// its admission through its queue, and each later one once, in order,
/// through the fan-out.
pub proof fn law_late_joiner_receives_every_broadcast(
    id: u128,
    states: Seq<(Seq<u128>, Seq<Seq<char>>)>,
    calls: Seq<HubCall>,
    k: int,
)
    requires
        states.len() == calls.len() + 1,
        forall|i: int| 0 <= i < calls.len() ==> hub_step(states[i], states[i + 1], #[trigger] calls[i]),
        states[0].0.no_duplicates(),
        !states[0].0.contains(id),
        0 <= k < calls.len(),
        calls[k] == HubCall::Admit(id),
        forall|i: int| 0 <= i < calls.len() && i != k ==> #[trigger] calls[i] != HubCall::Admit(id),
    ensures
        handed_to(id, states, calls, calls.len()) == states.last().1,
{
    lemma_handed_to(id, states, calls, k, calls.len());
}

} // verus!

verus! {

/// A call on a server's shared state, by what it does to the kept
/// messages: recording a broadcast of a text, or any other call
/// (admitting, looking up or terminating a connection, a step of the accept
/// loop, reading the kept messages, handing a text to one connection).
pub enum ServerStateCall {
    RecordBroadcast(Seq<char>),
    Other,
}

/// How the kept messages go from `before` to `after` through `call`, as the
/// contracts of `ServerState`'s functions state it: a recorded broadcast is
/// added at the end, and every other call leaves them as they are.
pub open spec fn replay_step(
    before: Seq<Seq<char>>,
    after: Seq<Seq<char>>,
    call: ServerStateCall,
) -> bool {
    match call {
        ServerStateCall::RecordBroadcast(data) => after == before.push(data),
        ServerStateCall::Other => after == before,
    }
}

/// The texts of the recorded broadcasts among `calls`, in call order.
pub open spec fn broadcast_data_of(calls: Seq<ServerStateCall>) -> Seq<Seq<char>>
    decreases calls.len(),
{
    if calls.len() == 0 {
        seq![]
    } else {
        let earlier = broadcast_data_of(calls.drop_last());
        match calls.last() {
            ServerStateCall::RecordBroadcast(data) => earlier.push(data),
            ServerStateCall::Other => earlier,
        }
    }
}

/// A server's kept messages, read after any series of calls on a fresh
/// state, are exactly the broadcast texts in call order, those made while
/// no connection was accepted included, and nothing handed to a single
/// connection.
pub proof fn law_replay_keeps_every_broadcast(
    replays: Seq<Seq<Seq<char>>>,
    calls: Seq<ServerStateCall>,
)
    requires
        replays.len() == calls.len() + 1,
        replays[0] == Seq::<Seq<char>>::empty(),
        forall|i: int| 0 <= i < calls.len() ==> replay_step(replays[i], replays[i + 1], #[trigger] calls[i]),
    ensures
        replays.last() == broadcast_data_of(calls),
    decreases calls.len(),
{
    if calls.len() > 0 {
        let n = calls.len() - 1;
        assert forall|i: int| 0 <= i < calls.drop_last().len() implies replay_step(
            replays.drop_last()[i],
            replays.drop_last()[i + 1],
            #[trigger] calls.drop_last()[i],
        ) by {
            assert(calls.drop_last()[i] == calls[i]);
            assert(replay_step(replays[i], replays[i + 1], calls[i]));
        }
        law_replay_keeps_every_broadcast(replays.drop_last(), calls.drop_last());
        assert(replay_step(replays[n], replays[n + 1], calls[n]));
    }
}

} // verus!
