//! What travels over a socket and what the dispatcher consumes.

use vstd::prelude::*;
use vstd::string::StringExecFns;
use crate::chat::json::{json_quote, json_string};

verus! {

/// Inbound chat frame: `{ "msg": .. }`.
#[derive(Debug, PartialEq, Eq)]
pub struct WsMsg {
    pub msg: String,
}

/// Outbound frame, for live broadcasts and for history replay alike.
#[derive(Debug, PartialEq, Eq)]
pub struct WsFrontMsg {
    pub msg: String,
    pub user_name: String,
}

/// A chat message tagged with the connection it came from and that
/// connection's room.
#[derive(Debug, PartialEq, Eq)]
pub struct Msg {
    pub msg: String,
    pub connection_id: u32,
    pub room_name: String,
}

/// Inbound login frame: `{ "room_name": .., "token": .., "name": .. }`.
#[derive(Debug, PartialEq, Eq)]
pub struct WsLogin {
    pub room_name: String,
    pub token: String,
    pub name: String,
}

/// A login attempt tagged with the connection it came from.
#[derive(Debug, PartialEq, Eq)]
pub struct Login {
    pub room_name: String,
    pub token: String,
    pub connection_id: u32,
    pub name: String,
}

/// The end of a connection, with the room it last named.
#[derive(Debug, PartialEq, Eq)]
pub struct Terminate {
    pub room_name: String,
    pub connection_id: u32,
}

/// The two shapes a client may send.
#[derive(Debug, PartialEq, Eq)]
pub enum WsData {
    Message(WsMsg),
    Login(WsLogin),
}

/// The events the dispatcher drains, in arrival order.
#[derive(Debug, PartialEq, Eq)]
pub enum Data {
    Message(Msg),
    Login(Login),
    Terminate(Terminate),
}

impl Clone for Msg {
    fn clone(&self) -> (copy: Self)
        ensures
            copy == *self,
    {
        Msg {
            msg: self.msg.clone(),
            connection_id: self.connection_id,
            room_name: self.room_name.clone(),
        }
    }
}

impl Clone for Login {
    fn clone(&self) -> (copy: Self)
        ensures
            copy == *self,
    {
        Login {
            room_name: self.room_name.clone(),
            token: self.token.clone(),
            connection_id: self.connection_id,
            name: self.name.clone(),
        }
    }
}

impl Clone for Terminate {
    fn clone(&self) -> (copy: Self)
        ensures
            copy == *self,
    {
        Terminate {
            room_name: self.room_name.clone(),
            connection_id: self.connection_id,
        }
    }
}

impl Clone for Data {
    fn clone(&self) -> (copy: Self)
        ensures
            copy == *self,
    {
        match self {
            Data::Message(msg) => Data::Message(msg.clone()),
            Data::Login(login) => Data::Login(login.clone()),
            Data::Terminate(terminate) => Data::Terminate(terminate.clone()),
        }
    }
}

/// The outbound frame around two JSON string literals: the user name first,
/// then the message.
pub open spec fn frame_around(user_name_json: Seq<char>, msg_json: Seq<char>) -> Seq<char> {
    "{\"user_name\":"@ + user_name_json + ",\"msg\":"@ + msg_json + "}"@
}

/// The outbound frame for a user name and a message text:
/// `{"user_name":..,"msg":..}` with both written as JSON strings.
pub open spec fn frame_text(user_name: Seq<char>, msg: Seq<char>) -> Seq<char> {
    frame_around(json_string(user_name), json_string(msg))
}

/// Puts two JSON string literals into the outbound frame.
pub fn frame_from_parts(user_name_json: &str, msg_json: &str) -> (frame: String)
    ensures
        frame@ == frame_around(user_name_json@, msg_json@),
{
    let mut frame = String::from_str("{\"user_name\":");
    frame.append(user_name_json);
    frame.append(",\"msg\":");
    frame.append(msg_json);
    frame.append("}");
    frame
}

/// The outbound frame for a user name and a message text.
pub fn encode_frame(user_name: &str, msg: &str) -> (frame: String)
    ensures
        frame@ == frame_text(user_name@, msg@),
{
    match json_quote(user_name) {
        Ok(u) => match json_quote(msg) {
            Ok(m) => frame_from_parts(u.as_str(), m.as_str()),
            Err(_) => unreached(),
        },
        Err(_) => unreached(),
    }
}

impl WsFrontMsg {
    /// The frame as it goes over the wire.
    pub fn to_frame(&self) -> (frame: String)
        ensures
            frame@ == frame_text(self.user_name@, self.msg@),
    {
        encode_frame(self.user_name.as_str(), self.msg.as_str())
    }
}

} // verus!
