//! The listener's id counter and the per-connection handler that turns what
//! a socket reports into records and events for the registrar and the
//! dispatcher.

use vstd::prelude::*;
use vstd::string::StringExecFns;
use crate::chat::message::{Data, Login, Msg, Terminate, WsData};
use crate::chat::registry::Client;

verus! {

/// Hands out connection ids: 1, 2, 3 and so on, each once.
#[derive(Debug, PartialEq, Eq)]
pub struct ConnectionIds {
    last: u32,
}

impl ConnectionIds {
    /// The ids handed out so far.
    pub closed spec fn issued(&self) -> Set<u32> {
        Set::new(|id: u32| 1 <= id <= self.last)
    }

    /// How many ids were handed out so far.
    pub closed spec fn count(&self) -> nat {
        self.last as nat
    }

    /// The counter that has handed out nothing yet.
    pub fn new() -> (ids: Self)
        ensures
            ids.issued() == Set::<u32>::empty(),
            ids.count() == 0,
    {
        let ids = ConnectionIds { last: 0 };
        assert(ids.issued() =~= Set::<u32>::empty());
        ids
    }

    /// The counter that goes on after `last`, as if it had handed out every
    /// id up to it.
    pub fn resume(last: u32) -> (ids: Self)
        ensures
            ids.count() == last,
            forall|id: u32| ids.issued().contains(id) <==> 1 <= id <= last,
    {
        ConnectionIds { last }
    }

    /// The next id: one more than the one before, so larger than every id
    /// handed out so far. `None` once every id has been handed out.
    pub fn next(&mut self) -> (id: Option<u32>)
        ensures
            match id {
                Some(n) => {
                    &&& n == old(self).count() + 1
                    &&& !old(self).issued().contains(n)
                    &&& forall|earlier: u32| old(self).issued().contains(earlier) ==> earlier < n
                    &&& final(self).issued() == old(self).issued().insert(n)
                    &&& final(self).count() == old(self).count() + 1
                },
                None => old(self).count() == u32::MAX && *final(self) == *old(self),
            },
    {
        if self.last == u32::MAX {
            None
        } else {
            self.last = self.last + 1;
            assert(self.issued() =~= old(self).issued().insert(self.last));
            Some(self.last)
        }
    }
}

/// What one connection knows of itself: its id, the address of its peer,
/// the room it last asked for, and whether it has told the dispatcher of its
/// end.
#[derive(Debug, PartialEq, Eq)]
pub struct WsHandler {
    pub addr: String,
    pub room_name: String,
    pub id: u32,
    pub terminated: bool,
}

impl WsHandler {
    /// The handler of a connection that was accepted under `id` and is not
    /// open yet.
    pub fn new(id: u32) -> (handler: Self)
        ensures
            handler.id == id,
            handler.room_name@ == "not initiated"@,
            handler.addr@ == Seq::<char>::empty(),
            !handler.terminated,
    {
        WsHandler {
            addr: String::new(),
            room_name: String::from_str("not initiated"),
            id,
            terminated: false,
        }
    }

    /// The socket is open: remembers the peer's address, `"Unknown"` where
    /// the socket has none, and makes the record that goes to the registrar,
    /// with the room still unassigned.
    pub fn on_open<S>(&mut self, remote_addr: Option<String>, sender: S) -> (client: Client<S>)
        ensures
            final(self).id == old(self).id,
            final(self).room_name == old(self).room_name,
            final(self).terminated == old(self).terminated,
            final(self).addr@ == match remote_addr {
                Some(a) => a@,
                None => "Unknown"@,
            },
            client.sender == sender,
            client.addr@ == final(self).addr@,
            client.connection_id == old(self).id,
            client.room_name@ == "unassigned"@,
    {
        let addr = match remote_addr {
            Some(a) => a,
            None => String::from_str("Unknown"),
        };
        self.addr = addr.clone();
        Client {
            sender,
            addr,
            connection_id: self.id,
            room_name: String::from_str("unassigned"),
        }
    }

    /// A frame arrived and was decoded: tags it with this connection's id. A
    /// chat message carries the room this connection last asked for; a login
    /// makes the room it names that room at once, before the dispatcher has
    /// seen it.
    pub fn on_message(&mut self, ws_data: WsData) -> (data: Data)
        ensures
            final(self).id == old(self).id,
            final(self).addr == old(self).addr,
            final(self).terminated == old(self).terminated,
            match ws_data {
                WsData::Message(m) => {
                    &&& final(self).room_name == old(self).room_name
                    &&& data matches Data::Message(msg)
                    &&& msg.msg@ == m.msg@
                    &&& msg.connection_id == old(self).id
                    &&& msg.room_name@ == old(self).room_name@
                },
                WsData::Login(l) => {
                    &&& final(self).room_name@ == l.room_name@
                    &&& data matches Data::Login(login)
                    &&& login.connection_id == old(self).id
                    &&& login.room_name@ == l.room_name@
                    &&& login.token@ == l.token@
                    &&& login.name@ == l.name@
                },
            },
    {
        match ws_data {
            WsData::Message(m) => Data::Message(
                Msg { msg: m.msg, connection_id: self.id, room_name: self.room_name.clone() },
            ),
            WsData::Login(l) => {
                self.room_name = l.room_name.clone();
                Data::Login(
                    Login {
                        connection_id: self.id,
                        room_name: l.room_name,
                        token: l.token,
                        name: l.name,
                    },
                )
            },
        }
    }

    /// The socket is going away: the event that tells the dispatcher, with
    /// the room this connection last asked for. The event is given once in
    /// the life of a connection: however often the socket reports its end,
    /// only the first report gives it.
    pub fn terminate_connection(&mut self) -> (data: Option<Data>)
        ensures
            final(self).id == old(self).id,
            final(self).addr == old(self).addr,
            final(self).room_name == old(self).room_name,
            final(self).terminated,
            match data {
                Some(event) => {
                    &&& !old(self).terminated
                    &&& event matches Data::Terminate(t)
                    &&& t.connection_id == old(self).id
                    &&& t.room_name@ == old(self).room_name@
                },
                None => old(self).terminated,
            },
    {
        if self.terminated {
            None
        } else {
            self.terminated = true;
            Some(
                Data::Terminate(
                    Terminate { connection_id: self.id, room_name: self.room_name.clone() },
                ),
            )
        }
    }
}

} // verus!
