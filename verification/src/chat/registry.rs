//! The room registry: which connection waits for its login, which has joined
//! which room, and under which name.

use vstd::prelude::*;
use std::collections::HashMap;
use vstd::hash_map::StringHashMap;
use vstd::std_specs::iter::IteratorSpec;
use crate::chat::message::Login;
use crate::repository::DBError;

verus! {

/// One live client session. `sender` is the capability to reach the remote
/// peer; the registry carries it and never looks inside.
#[derive(Debug, PartialEq, Eq)]
pub struct Client<S> {
    pub sender: S,
    pub addr: String,
    pub connection_id: u32,
    pub room_name: String,
}

/// A connection as the contracts see it.
pub struct ClientView<S> {
    pub sender: S,
    pub addr: Seq<char>,
    pub connection_id: u32,
    pub room_name: Seq<char>,
}

impl<S> View for Client<S> {
    type V = ClientView<S>;

    open spec fn view(&self) -> ClientView<S> {
        ClientView {
            sender: self.sender,
            addr: self.addr@,
            connection_id: self.connection_id,
            room_name: self.room_name@,
        }
    }
}

/// The registry as the contracts see it: the pending pool, the members of
/// each room, and the display name of each connection that has logged in.
pub struct ServerView<S> {
    pub init_pool: Map<u32, ClientView<S>>,
    pub connections: Map<Seq<char>, Map<u32, ClientView<S>>>,
    pub user_names: Map<u32, Seq<char>>,
}

impl<S> ServerView<S> {
    /// The registry nobody has connected to yet.
    pub open spec fn empty() -> Self {
        ServerView { init_pool: Map::empty(), connections: Map::empty(), user_names: Map::empty() }
    }

    /// Whether connection `id` is a member of `room`.
    pub open spec fn is_member(self, room: Seq<char>, id: u32) -> bool {
        self.connections.contains_key(room) && self.connections[room].contains_key(id)
    }

    /// Whether connection `id` is a member of some room.
    pub open spec fn joined(self, id: u32) -> bool {
        exists|room: Seq<char>| self.is_member(room, id)
    }

    /// The members of `room`; nobody where the room has no entry.
    pub open spec fn members(self, room: Seq<char>) -> Map<u32, ClientView<S>> {
        if self.connections.contains_key(room) {
            self.connections[room]
        } else {
            Map::empty()
        }
    }

    /// Who receives a message sent into `room` by connection `sender`: every
    /// member of the room but the sender.
    pub open spec fn recipients(self, room: Seq<char>, sender: u32) -> Set<u32> {
        self.members(room).dom().remove(sender)
    }

    /// What every registry satisfies.
    ///
    /// * A connection is filed under its own id, a member under its own room.
    /// * A pending connection has no display name, so it is in no room.
    /// * A connection is a member of at most one room.
    /// * The connections with a display name are exactly the members.
    pub open spec fn wf(self) -> bool {
        &&& forall|id: u32| #[trigger]
            self.init_pool.contains_key(id) ==> self.init_pool[id].connection_id == id
                && !self.user_names.contains_key(id)
        &&& forall|room: Seq<char>, id: u32| #[trigger]
            self.is_member(room, id) ==> {
                &&& self.connections[room][id].connection_id == id
                &&& self.connections[room][id].room_name == room
                &&& self.user_names.contains_key(id)
            }
        &&& forall|r1: Seq<char>, r2: Seq<char>, id: u32|
            #[trigger] self.is_member(r1, id) && #[trigger] self.is_member(r2, id) ==> r1 == r2
        &&& forall|id: u32| #[trigger] self.user_names.contains_key(id) ==> self.joined(id)
    }

    /// A new connection enters the pending pool, replacing a pending one with
    /// the same id. A connection whose id is that of a member is turned away.
    pub open spec fn add_pending(self, client: ClientView<S>) -> Self {
        if self.user_names.contains_key(client.connection_id) {
            self
        } else {
            ServerView {
                init_pool: self.init_pool.insert(client.connection_id, client),
                ..self
            }
        }
    }

    /// Pending connection `id` joins `room` under `name`: it leaves the pool,
    /// takes the room's name, and the room gets an entry if it had none.
    pub open spec fn join(self, id: u32, room: Seq<char>, name: Seq<char>) -> Self
        recommends
            self.init_pool.contains_key(id),
    {
        let joined = ClientView { room_name: room, ..self.init_pool[id] };
        ServerView {
            init_pool: self.init_pool.remove(id),
            connections: self.connections.insert(room, self.members(room).insert(id, joined)),
            user_names: self.user_names.insert(id, name),
        }
    }

    /// Connection `id` leaves the pending pool, if it was there.
    pub open spec fn reject(self, id: u32) -> Self {
        ServerView { init_pool: self.init_pool.remove(id), ..self }
    }

    /// The registry after a login attempt of connection `id` into `room` under
    /// `name`, given what the token store said of the token.
    pub open spec fn login(
        self,
        id: u32,
        room: Seq<char>,
        name: Seq<char>,
        validity: Result<bool, DBError>,
    ) -> Self {
        match validity {
            Ok(true) => if self.init_pool.contains_key(id) {
                self.join(id, room, name)
            } else {
                self
            },
            Ok(false) => self.reject(id),
            Err(_) => self,
        }
    }

    /// The registry after connection `id` ended while naming `room`: where it
    /// is a member of that room it leaves the room and loses its display name;
    /// otherwise nothing changes.
    pub open spec fn terminate(self, id: u32, room: Seq<char>) -> Self {
        if self.is_member(room, id) {
            ServerView {
                connections: self.connections.insert(room, self.connections[room].remove(id)),
                user_names: self.user_names.remove(id),
                ..self
            }
        } else {
            self
        }
    }
}

/// The empty registry is well formed.
pub proof fn lemma_empty_wf<S>()
    ensures
        ServerView::<S>::empty().wf(),
{
}

/// Registering a connection keeps the registry well formed.
pub proof fn lemma_add_pending_wf<S>(v: ServerView<S>, client: ClientView<S>)
    requires
        v.wf(),
    ensures
        v.add_pending(client).wf(),
{
    let w = v.add_pending(client);
    assert forall|room: Seq<char>, id: u32| #[trigger] w.is_member(room, id) implies {
        &&& w.connections[room][id].connection_id == id
        &&& w.connections[room][id].room_name == room
        &&& w.user_names.contains_key(id)
    } by {
        assert(v.is_member(room, id));
    }
    assert forall|r1: Seq<char>, r2: Seq<char>, id: u32|
        #[trigger] w.is_member(r1, id) && #[trigger] w.is_member(r2, id) implies r1 == r2 by {
        assert(v.is_member(r1, id) && v.is_member(r2, id));
    }
    assert forall|id: u32| #[trigger] w.user_names.contains_key(id) implies w.joined(id) by {
        assert(v.joined(id));
        let room = choose|room: Seq<char>| v.is_member(room, id);
        assert(w.is_member(room, id));
    }
}

/// Letting a pending connection into a room keeps the registry well formed.
pub proof fn lemma_join_wf<S>(v: ServerView<S>, id: u32, room: Seq<char>, name: Seq<char>)
    requires
        v.wf(),
        v.init_pool.contains_key(id),
    ensures
        v.join(id, room, name).wf(),
{
    let w = v.join(id, room, name);
    assert(!v.user_names.contains_key(id));
    assert forall|r: Seq<char>, i: u32| #[trigger] w.is_member(r, i) implies {
        &&& w.connections[r][i].connection_id == i
        &&& w.connections[r][i].room_name == r
        &&& w.user_names.contains_key(i)
    } by {
        if !(r == room && i == id) {
            assert(v.is_member(r, i));
        }
    }
    assert forall|r1: Seq<char>, r2: Seq<char>, i: u32|
        #[trigger] w.is_member(r1, i) && #[trigger] w.is_member(r2, i) implies r1 == r2 by {
        if i == id {
            if r1 != room {
                assert(v.is_member(r1, i));
            }
            if r2 != room {
                assert(v.is_member(r2, i));
            }
        } else {
            assert(v.is_member(r1, i) && v.is_member(r2, i));
        }
    }
    assert forall|i: u32| #[trigger] w.user_names.contains_key(i) implies w.joined(i) by {
        if i == id {
            assert(w.is_member(room, i));
        } else {
            assert(v.joined(i));
            let r = choose|r: Seq<char>| v.is_member(r, i);
            assert(w.is_member(r, i));
        }
    }
}

/// A login attempt keeps the registry well formed, whatever the token store
/// said.
pub proof fn lemma_login_wf<S>(
    v: ServerView<S>,
    id: u32,
    room: Seq<char>,
    name: Seq<char>,
    validity: Result<bool, DBError>,
)
    requires
        v.wf(),
    ensures
        v.login(id, room, name, validity).wf(),
{
    let w = v.login(id, room, name, validity);
    match validity {
        Ok(true) => {
            if v.init_pool.contains_key(id) {
                lemma_join_wf(v, id, room, name);
            }
        },
        Ok(false) => {
            assert forall|r: Seq<char>, i: u32| #[trigger] w.is_member(r, i) implies {
                &&& w.connections[r][i].connection_id == i
                &&& w.connections[r][i].room_name == r
                &&& w.user_names.contains_key(i)
            } by {
                assert(v.is_member(r, i));
            }
            assert forall|r1: Seq<char>, r2: Seq<char>, i: u32|
                #[trigger] w.is_member(r1, i) && #[trigger] w.is_member(r2, i) implies r1
                == r2 by {
                assert(v.is_member(r1, i) && v.is_member(r2, i));
            }
            assert forall|i: u32| #[trigger] w.user_names.contains_key(i) implies w.joined(i) by {
                assert(v.joined(i));
                let r = choose|r: Seq<char>| v.is_member(r, i);
                assert(w.is_member(r, i));
            }
        },
        Err(_) => {},
    }
}

/// The end of a connection keeps the registry well formed.
pub proof fn lemma_terminate_wf<S>(v: ServerView<S>, id: u32, room: Seq<char>)
    requires
        v.wf(),
    ensures
        v.terminate(id, room).wf(),
{
    let w = v.terminate(id, room);
    if v.is_member(room, id) {
        assert forall|r: Seq<char>, i: u32| #[trigger] w.is_member(r, i) implies {
            &&& w.connections[r][i].connection_id == i
            &&& w.connections[r][i].room_name == r
            &&& w.user_names.contains_key(i)
        } by {
            assert(v.is_member(r, i));
            if i == id {
                assert(v.is_member(room, id));
            }
        }
        assert forall|r1: Seq<char>, r2: Seq<char>, i: u32|
            #[trigger] w.is_member(r1, i) && #[trigger] w.is_member(r2, i) implies r1 == r2 by {
            assert(v.is_member(r1, i) && v.is_member(r2, i));
        }
        assert forall|i: u32| #[trigger] w.user_names.contains_key(i) implies w.joined(i) by {
            assert(v.joined(i));
            let r = choose|r: Seq<char>| v.is_member(r, i);
            assert(w.is_member(r, i));
        }
    }
}

/// The contract's view of a map of connections.
spec fn client_views<S>(m: Map<u32, Client<S>>) -> Map<u32, ClientView<S>> {
    Map::new(|id: u32| m.contains_key(id), |id: u32| m[id]@)
}

/// The rooms as the contracts see them, from the slot each room name has and
/// the members filed in each slot.
spec fn rooms_view<S>(
    connections: Seq<HashMap<u32, Client<S>>>,
    rooms: Map<Seq<char>, usize>,
) -> Map<Seq<char>, Map<u32, ClientView<S>>> {
    Map::new(
        |room: Seq<char>| rooms.contains_key(room),
        |room: Seq<char>| client_views(connections[rooms[room] as int]@),
    )
}

/// The display names as the contracts see them.
spec fn names_view(user_names: Map<u32, String>) -> Map<u32, Seq<char>> {
    Map::new(|id: u32| user_names.contains_key(id), |id: u32| user_names[id]@)
}

/// Every room name has a slot of its own among the membership maps.
spec fn slots_ok<S>(
    connections: Seq<HashMap<u32, Client<S>>>,
    rooms: Map<Seq<char>, usize>,
) -> bool {
    &&& forall|room: Seq<char>| #[trigger]
        rooms.contains_key(room) ==> rooms[room] < connections.len()
    &&& forall|r1: Seq<char>, r2: Seq<char>|
        #[trigger] rooms.contains_key(r1) && #[trigger] rooms.contains_key(r2) && rooms[r1]
            == rooms[r2] ==> r1 == r2
}

/// Files `client` under its id among the members of the room it names,
/// giving the room a slot if it had none.
fn file_member<S>(
    connections: &mut Vec<HashMap<u32, Client<S>>>,
    rooms: &mut StringHashMap<usize>,
    client: Client<S>,
)
    requires
        slots_ok(old(connections)@, old(rooms)@),
    ensures
        slots_ok(final(connections)@, final(rooms)@),
        rooms_view(final(connections)@, final(rooms)@) == ({
            let before = rooms_view(old(connections)@, old(rooms)@);
            let members = if before.contains_key(client.room_name@) {
                before[client.room_name@]
            } else {
                Map::empty()
            };
            before.insert(client.room_name@, members.insert(client.connection_id, client@))
        }),
{
    broadcast use vstd::std_specs::hash::group_hash_axioms;
    let ghost before = rooms_view(connections@, rooms@);
    let ghost room = client.room_name@;
    let ghost filed = client@;
    let id = client.connection_id;
    match rooms.get(client.room_name.as_str()) {
        Some(slot) => {
            let slot = *slot;
            let members = &mut connections[slot];
            members.insert(id, client);
            proof {
                let after = rooms_view(connections@, rooms@);
                let expected = before.insert(room, before[room].insert(id, filed));
                assert forall|r: Seq<char>| #[trigger] after.contains_key(r) implies after[r]
                    =~= expected[r] by {
                    assert(rooms@.contains_key(r));
                }
                assert(after =~= expected);
            }
        },
        None => {
            let name = client.room_name.clone();
            let mut members: HashMap<u32, Client<S>> = HashMap::new();
            members.insert(id, client);
            let slot = connections.len();
            connections.push(members);
            rooms.insert(name, slot);
            proof {
                let after = rooms_view(connections@, rooms@);
                let alone = Map::<u32, ClientView<S>>::empty().insert(id, filed);
                let expected = before.insert(room, alone);
                assert forall|r: Seq<char>| #[trigger] after.contains_key(r) implies after[r]
                    =~= expected[r] by {
                    if r != room {
                        assert(old(rooms)@.contains_key(r));
                    }
                }
                assert(after =~= expected);
                assert forall|r: Seq<char>| #[trigger] rooms@.contains_key(r) implies rooms@[r]
                    < connections@.len() by {
                    if r != room {
                        assert(old(rooms)@.contains_key(r));
                    }
                }
                assert forall|r1: Seq<char>, r2: Seq<char>|
                    #[trigger] rooms@.contains_key(r1) && #[trigger] rooms@.contains_key(r2)
                        && rooms@[r1] == rooms@[r2] implies r1 == r2 by {
                    if r1 != room {
                        assert(old(rooms)@.contains_key(r1));
                    }
                    if r2 != room {
                        assert(old(rooms)@.contains_key(r2));
                    }
                }
            }
        },
    }
}

/// The connection ids of a list of connections, in the list's order.
pub open spec fn ids_of<S>(clients: Seq<&Client<S>>) -> Seq<u32> {
    Seq::new(clients.len(), |i: int| clients[i].connection_id)
}

/// How a login attempt ended for the registry.
#[derive(Debug, PartialEq, Eq)]
pub enum LoginStep<S> {
    /// The token was valid and the connection is now a member of its room.
    Joined,
    /// The token was valid, but the connection was not in the pending pool.
    NotPending,
    /// The token was not valid. The connection, if it was pending, has left
    /// the registry and is handed over to be closed.
    Rejected(Option<Client<S>>),
    /// The token store failed; nothing changed.
    Failed(DBError),
}

impl<S> LoginStep<S> {
    /// Whether this is how a login attempt of connection `id` ends in
    /// registry `before`, given what the token store said.
    pub open spec fn answers(
        self,
        before: ServerView<S>,
        id: u32,
        validity: Result<bool, DBError>,
    ) -> bool {
        match validity {
            Ok(true) => if before.init_pool.contains_key(id) {
                self is Joined
            } else {
                self is NotPending
            },
            Ok(false) => match self {
                LoginStep::Rejected(Some(client)) => before.init_pool.contains_key(id) && client@
                    == before.init_pool[id],
                LoginStep::Rejected(None) => !before.init_pool.contains_key(id),
                _ => false,
            },
            Err(e) => self == LoginStep::<S>::Failed(e),
        }
    }
}

/// The room registry. It owns every connection record: a connection is in
/// the pending pool or in one room, never in both.
pub struct Server<S> {
    connections: Vec<HashMap<u32, Client<S>>>,
    rooms: StringHashMap<usize>,
    user_names: HashMap<u32, String>,
    init_pool: HashMap<u32, Client<S>>,
}

impl<S> View for Server<S> {
    type V = ServerView<S>;

    closed spec fn view(&self) -> ServerView<S> {
        ServerView {
            init_pool: client_views(self.init_pool@),
            connections: rooms_view(self.connections@, self.rooms@),
            user_names: names_view(self.user_names@),
        }
    }
}

impl<S> Server<S> {
    #[verifier::type_invariant]
    spec fn inv(&self) -> bool {
        &&& slots_ok(self.connections@, self.rooms@)
        &&& self@.wf()
    }

    /// The registry nobody has connected to yet.
    pub fn new() -> (server: Self)
        ensures
            server@ == ServerView::<S>::empty(),
            server@.wf(),
    {
        let server = Server {
            connections: Vec::new(),
            rooms: StringHashMap::new(),
            user_names: HashMap::new(),
            init_pool: HashMap::new(),
        };
        assert(server@.init_pool =~= Map::empty());
        assert(server@.connections =~= Map::empty());
        assert(server@.user_names =~= Map::empty());
        server
    }

    /// Applies a login attempt to the registry, given what the token store
    /// said of the token.
    ///
    /// * Valid: the connection leaves the pending pool, is registered under
    ///   the name it gave and joins the room, which gets its entry if this is
    ///   its first member. A connection that is not pending changes nothing.
    /// * Not valid: the connection leaves the pending pool and is handed over
    ///   to be closed.
    /// * The store failed: nothing changes.
    pub fn apply_login(&mut self, login: &Login, validity: Result<bool, DBError>) -> (step:
        LoginStep<S>)
        ensures
            final(self)@ == old(self)@.login(
                login.connection_id,
                login.room_name@,
                login.name@,
                validity,
            ),
            final(self)@.wf(),
            step.answers(old(self)@, login.connection_id, validity),
    {
        broadcast use vstd::std_specs::hash::group_hash_axioms;
        let ghost before = self@;
        let ghost expected = before.login(
            login.connection_id,
            login.room_name@,
            login.name@,
            validity,
        );
        proof {
            use_type_invariant(&*self);
            lemma_login_wf(before, login.connection_id, login.room_name@, login.name@, validity);
        }
        let mut taken = Server::new();
        std::mem::swap(self, &mut taken);
        let Server { mut connections, mut rooms, mut user_names, mut init_pool } = taken;
        let step = match validity {
            Ok(true) => match init_pool.remove(&login.connection_id) {
                Some(mut client) => {
                    client.room_name = login.room_name.clone();
                    user_names.insert(login.connection_id, login.name.clone());
                    file_member(&mut connections, &mut rooms, client);
                    LoginStep::Joined
                },
                None => LoginStep::NotPending,
            },
            Ok(false) => LoginStep::Rejected(init_pool.remove(&login.connection_id)),
            Err(e) => LoginStep::Failed(e),
        };
        proof {
            assert(client_views(init_pool@) =~= expected.init_pool);
            assert(names_view(user_names@) =~= expected.user_names);
            assert(rooms_view(connections@, rooms@) =~= expected.connections);
        }
        *self = Server { connections, rooms, user_names, init_pool };
        step
    }

    /// Applies the end of connection `id`, which last named `room_name`:
    /// where it is a member of that room it leaves the room and loses its
    /// display name. Says whether it was a member.
    pub fn terminate(&mut self, id: u32, room_name: &str) -> (removed: bool)
        ensures
            final(self)@ == old(self)@.terminate(id, room_name@),
            final(self)@.wf(),
            removed == old(self)@.is_member(room_name@, id),
    {
        broadcast use vstd::std_specs::hash::group_hash_axioms;
        let ghost before = self@;
        let ghost expected = before.terminate(id, room_name@);
        proof {
            use_type_invariant(&*self);
            lemma_terminate_wf(before, id, room_name@);
        }
        let mut taken = Server::new();
        std::mem::swap(self, &mut taken);
        let Server { mut connections, rooms, mut user_names, init_pool } = taken;
        let removed = match rooms.get(room_name) {
            Some(slot) => {
                let slot = *slot;
                let members = &mut connections[slot];
                match members.remove(&id) {
                    Some(_) => {
                        user_names.remove(&id);
                        true
                    },
                    None => false,
                }
            },
            None => false,
        };
        proof {
            let after = rooms_view(connections@, rooms@);
            assert forall|r: Seq<char>| #[trigger] after.contains_key(r) implies after[r]
                =~= expected.connections[r] by {
                assert(rooms@.contains_key(r));
            }
            assert(after =~= expected.connections);
            assert(names_view(user_names@) =~= expected.user_names);
        }
        *self = Server { connections, rooms, user_names, init_pool };
        removed
    }

    /// The display name connection `id` logged in under.
    pub fn user_name(&self, id: u32) -> (name: Option<&String>)
        ensures
            self@.wf(),
            match name {
                Some(n) => self@.user_names.contains_key(id) && n@ == self@.user_names[id],
                None => !self@.user_names.contains_key(id),
            },
    {
        broadcast use vstd::std_specs::hash::group_hash_axioms;
        proof {
            use_type_invariant(self);
        }
        self.user_names.get(&id)
    }

    /// The connection `id` waiting in the pending pool.
    pub fn pending(&self, id: u32) -> (client: Option<&Client<S>>)
        ensures
            match client {
                Some(c) => self@.init_pool.contains_key(id) && c@ == self@.init_pool[id],
                None => !self@.init_pool.contains_key(id),
            },
    {
        broadcast use vstd::std_specs::hash::group_hash_axioms;
        self.init_pool.get(&id)
    }

    /// The member `id` of room `room_name`.
    pub fn member(&self, room_name: &str, id: u32) -> (client: Option<&Client<S>>)
        ensures
            match client {
                Some(c) => self@.is_member(room_name@, id) && c@
                    == self@.connections[room_name@][id],
                None => !self@.is_member(room_name@, id),
            },
    {
        broadcast use vstd::std_specs::hash::group_hash_axioms;
        proof {
            use_type_invariant(self);
        }
        match self.rooms.get(room_name) {
            Some(slot) => self.connections[*slot].get(&id),
            None => None,
        }
    }

    /// Whether room `room_name` has an entry. A room gets its entry with its
    /// first member and keeps it when the last one leaves.
    pub fn has_room(&self, room_name: &str) -> (known: bool)
        ensures
            known == self@.connections.contains_key(room_name@),
    {
        self.rooms.contains_key(room_name)
    }

    /// Who receives a message sent into room `room_name` by connection
    /// `sender`: each member of the room but the sender, once, in no
    /// particular order. Nobody where the room has no entry.
    pub fn recipients(&self, room_name: &str, sender: u32) -> (out: Vec<&Client<S>>)
        ensures
            ids_of(out@).no_duplicates(),
            ids_of(out@).to_set() == self@.recipients(room_name@, sender),
            forall|i: int|
                0 <= i < out@.len() ==> #[trigger] out@[i]@
                    == self@.connections[room_name@][out@[i].connection_id],
    {
        broadcast use vstd::std_specs::hash::group_hash_axioms;
        proof {
            use_type_invariant(self);
        }
        let mut out: Vec<&Client<S>> = Vec::new();
        match self.rooms.get(room_name) {
            Some(slot) => {
                let members = &self.connections[*slot];
                let ghost entries = members.iter().remaining();
                let ghost room = room_name@;
                assert forall|j: int| 0 <= j < entries.len() implies (#[trigger] entries[
                    j
                ]).1.connection_id == *entries[j].0 by {
                    assert(members@.contains_key(*entries[j].0));
                    assert(self@.is_member(room, *entries[j].0));
                }
                for entry in it: members.iter()
                    invariant
                        it.seq() == entries,
                        entries.no_duplicates(),
                        forall|j: int|
                            0 <= j < entries.len() ==> members@.contains_key(
                                *(#[trigger] entries[j]).0,
                            ) && members@[*entries[j].0] == *entries[j].1
                                && entries[j].1.connection_id == *entries[j].0,
                        ids_of(out@).no_duplicates(),
                        forall|id: u32|
                            ids_of(out@).contains(id) <==> (id != sender && exists|j: int|
                                0 <= j < it.index() && *entries[j].0 == id),
                        forall|i: int|
                            0 <= i < out@.len() ==> members@.contains_key(
                                (#[trigger] out@[i]).connection_id,
                            ) && members@[out@[i].connection_id] == *out@[i],
                {
                    let (id, client) = entry;
                    if *id != sender {
                        let ghost prev = out@;
                        proof {
                            if ids_of(prev).contains(*id) {
                                let j = choose|j: int| 0 <= j < it.index() && *entries[j].0 == *id;
                                assert(entries[j] == entries[it.index() as int]);
                            }
                        }
                        out.push(client);
                        proof {
                            assert(ids_of(out@) =~= ids_of(prev).push(*id));
                            assert forall|k: u32|
                                ids_of(out@).contains(k) <==> (k != sender && exists|j: int|
                                    0 <= j < it.index() + 1 && *entries[j].0 == k) by {
                                if ids_of(out@).contains(k) {
                                    let i = choose|i: int|
                                        0 <= i < ids_of(out@).len() && ids_of(out@)[i] == k;
                                    if i < prev.len() {
                                        assert(ids_of(prev)[i] == k);
                                        assert(ids_of(prev).contains(k));
                                        let j = choose|j: int|
                                            0 <= j < it.index() && *entries[j].0 == k;
                                        assert(0 <= j < it.index() + 1 && *entries[j].0 == k);
                                    } else {
                                        assert(*entries[it.index() as int].0 == k);
                                    }
                                }
                                if k != sender && exists|j: int|
                                    0 <= j < it.index() + 1 && *entries[j].0 == k {
                                    let j = choose|j: int|
                                        0 <= j < it.index() + 1 && *entries[j].0 == k;
                                    if j < it.index() {
                                        assert(ids_of(prev).contains(k));
                                        let i = choose|i: int|
                                            0 <= i < ids_of(prev).len() && ids_of(prev)[i] == k;
                                        assert(ids_of(out@)[i] == k);
                                    } else {
                                        assert(ids_of(out@)[prev.len() as int] == k);
                                    }
                                }
                            }
                        }
                    }
                }
                proof {
                    let want = self@.recipients(room, sender);
                    assert forall|k: u32| ids_of(out@).to_set().contains(k) <==> want.contains(
                        k,
                    ) by {
                        if ids_of(out@).contains(k) {
                            let j = choose|j: int| 0 <= j < entries.len() && *entries[j].0 == k;
                            assert(members@.contains_key(*entries[j].0));
                        }
                        if want.contains(k) {
                            assert(members@.contains_key(k));
                            assert(entries.contains((&k, &members@[k])));
                            let j = choose|j: int|
                                0 <= j < entries.len() && entries[j] == (&k, &members@[k]);
                            assert(*entries[j].0 == k);
                        }
                    }
                    assert(ids_of(out@).to_set() =~= want);
                }
            },
            None => {
                proof {
                    assert(ids_of(out@).to_set() =~= self@.recipients(room_name@, sender));
                }
            },
        }
        out
    }

    /// How many rooms have an entry, empty ones included.
    pub fn room_count(&self) -> (count: usize)
        ensures
            count == self@.connections.dom().len(),
    {
        broadcast use vstd::hash_map::group_hash_map_axioms;
        assert(self@.connections.dom() =~= self.rooms@.dom());
        self.rooms.len()
    }

    /// Puts a new connection into the pending pool. A connection whose id a
    /// member already has is handed back instead.
    pub fn add_pending(&mut self, client: Client<S>) -> (refused: Result<(), Client<S>>)
        ensures
            final(self)@ == old(self)@.add_pending(client@),
            final(self)@.wf(),
            match refused {
                Ok(_) => !old(self)@.user_names.contains_key(client.connection_id),
                Err(back) => old(self)@.user_names.contains_key(client.connection_id) && back
                    == client,
            },
    {
        broadcast use vstd::std_specs::hash::group_hash_axioms;
        proof {
            use_type_invariant(&*self);
            lemma_add_pending_wf(self@, client@);
        }
        let mut taken = Server::new();
        std::mem::swap(self, &mut taken);
        let Server { connections, rooms, user_names, mut init_pool } = taken;
        let refused = if user_names.contains_key(&client.connection_id) {
            Err(client)
        } else {
            init_pool.insert(client.connection_id, client);
            Ok(())
        };
        let ghost before = old(self)@;
        let ghost pool = client_views(init_pool@);
        proof {
            assert(pool =~= before.add_pending(client@).init_pool);
        }
        *self = Server { connections, rooms, user_names, init_pool };
        refused
    }
}

impl<S> Default for Server<S> {
    fn default() -> (server: Self)
        ensures
            server@ == ServerView::<S>::empty(),
    {
        Server::new()
    }
}

} // verus!
