//! The persistence contract the relay consumes: tokens, rooms and messages,
//! each behind a narrow trait, and the error kind they share.

pub mod mongo;

use vstd::prelude::*;
use vstd::string::StringExecFns;

verus! {

/// What went wrong inside a store.
#[derive(Debug, Clone, Copy, PartialEq, Eq, Structural)]
pub enum ErrorType {
    Connection,
    Config,
    UnknownDBType,
    EntryExists,
    InconsistentState,
    InvalidParams,
    Other,
}

impl ErrorType {
    /// The human-readable description of each kind.
    pub open spec fn description_spec(self) -> Seq<char> {
        match self {
            ErrorType::Connection => "connection"@,
            ErrorType::Config => "config"@,
            ErrorType::UnknownDBType => "this db is not implemented"@,
            ErrorType::EntryExists => "such key already exists"@,
            ErrorType::InconsistentState => "some values are wrong"@,
            ErrorType::InvalidParams => "supplied params are invalid"@,
            ErrorType::Other => "other"@,
        }
    }

    /// The text the kind is shown as: a fixed label in front of its description.
    pub open spec fn text(self) -> Seq<char> {
        "Error type: "@ + self.description_spec()
    }

    pub fn description(&self) -> (s: &'static str)
        ensures
            s@ == self.description_spec(),
    {
        match self {
            ErrorType::Connection => "connection",
            ErrorType::Config => "config",
            ErrorType::UnknownDBType => "this db is not implemented",
            ErrorType::EntryExists => "such key already exists",
            ErrorType::InconsistentState => "some values are wrong",
            ErrorType::InvalidParams => "supplied params are invalid",
            ErrorType::Other => "other",
        }
    }

    pub fn to_string(&self) -> (s: String)
        ensures
            s@ == self.text(),
    {
        let mut s = String::from_str("Error type: ");
        s.append(self.description());
        s
    }
}

/// The one error every store operation reports.
#[derive(Debug, Clone, Copy, PartialEq, Eq, Structural)]
pub struct DBError {
    pub err_type: ErrorType,
}

impl DBError {
    /// The text the error is shown as: the label, then the kind's own text.
    pub open spec fn text(self) -> Seq<char> {
        "Error type: "@ + self.err_type.text()
    }

    pub fn to_string(&self) -> (s: String)
        ensures
            s@ == self.text(),
    {
        let mut s = String::from_str("Error type: ");
        let kind = self.err_type.to_string();
        s.append(kind.as_str());
        s
    }
}

/// A room as the room store keeps it.
#[derive(Debug, PartialEq, Eq)]
pub struct RoomData {
    pub name: String,
    pub password: Option<String>,
    pub keywords: Option<Vec<String>>,
    pub description: Option<String>,
}

/// A login token together with the room it was issued for.
#[derive(Debug, Clone, Copy, PartialEq, Eq)]
pub struct TokenData<'b> {
    pub token: &'b str,
    pub room_name: &'b str,
}

/// Which page of a room's history to read.
#[derive(Debug, PartialEq, Eq)]
pub struct MsgParams {
    pub page: i64,
    pub room_name: String,
    pub size: i64,
}

/// One chat message as the message store keeps it.
#[derive(Debug, PartialEq, Eq)]
pub struct MessageData {
    pub room_name: String,
    pub user_name: String,
    pub message: String,
}

/// Where the database is and how to log in to it.
#[derive(Debug, PartialEq, Eq)]
pub struct DBParams {
    pub user_name: String,
    pub password: String,
    pub database: String,
    pub host: String,
    pub port: String,
}

impl Clone for MsgParams {
    fn clone(&self) -> (copy: Self)
        ensures
            copy == *self,
    {
        MsgParams {
            page: self.page,
            room_name: self.room_name.clone(),
            size: self.size,
        }
    }
}

impl Clone for MessageData {
    fn clone(&self) -> (copy: Self)
        ensures
            copy == *self,
    {
        MessageData {
            room_name: self.room_name.clone(),
            user_name: self.user_name.clone(),
            message: self.message.clone(),
        }
    }
}

impl MessageData {
    /// The text the message is shown as.
    pub open spec fn text(self) -> Seq<char> {
        "room_name: "@ + self.room_name@ + " user_name: "@ + self.user_name@ + " message: "@
            + self.message@
    }

    pub fn to_string(&self) -> (s: String)
        ensures
            s@ == self.text(),
    {
        let mut s = String::from_str("room_name: ");
        s.append(self.room_name.as_str());
        s.append(" user_name: ");
        s.append(self.user_name.as_str());
        s.append(" message: ");
        s.append(self.message.as_str());
        s
    }
}

impl Clone for DBParams {
    fn clone(&self) -> (copy: Self)
        ensures
            copy == *self,
    {
        DBParams {
            user_name: self.user_name.clone(),
            password: self.password.clone(),
            database: self.database.clone(),
            host: self.host.clone(),
            port: self.port.clone(),
        }
    }
}

/// The token store. Tokens are single-use and time-boxed; the relay only
/// consumes them.
pub trait Token {
    fn insert(&self, token: TokenData) -> Result<(), DBError>;

    fn delete(&self, token: TokenData) -> Result<(), DBError>;

    fn get_valid(&self, token: TokenData) -> Result<bool, DBError>;
}

/// The room store.
pub trait Room {
    fn authorize(&self, room_name: &str, password: Option<String>) -> Result<bool, DBError>;

    fn find(&self, keywords: Vec<&str>) -> Result<Vec<RoomData>, DBError>;

    fn insert(&self, chat: RoomData) -> Result<(), DBError>;
}

/// The message store. `get` answers most recent first.
pub trait Message {
    fn insert(&self, message: MessageData) -> Result<(), DBError>;

    fn get(&self, params: MsgParams) -> Result<Vec<MessageData>, DBError>;
}

/// A database that hands out the three stores.
pub trait Repository: Send {
    type Tokens: Token;

    type Rooms: Room;

    type Messages: Message;

    fn token(&self) -> Box<Self::Tokens>;

    fn room(&self) -> Box<Self::Rooms>;

    fn message(&self) -> Box<Self::Messages>;
}

/// The database `new_repo` settled on, and how to reach it.
#[derive(Debug, PartialEq, Eq)]
pub enum Backend {
    Mongo { connection_string: String },
}

/// Picks the database by its name. `"mongo"` is the one there is: it comes
/// back with the address to connect to. Any other name is an unknown
/// database.
pub fn new_repo(database: &str, params: DBParams) -> (backend: Result<Backend, DBError>)
    ensures
        match backend {
            Ok(Backend::Mongo { connection_string }) => database@ == "mongo"@
                && connection_string@ == mongo::connection_text(params),
            Err(e) => database@ != "mongo"@ && e.err_type == ErrorType::UnknownDBType,
        },
{
    let asked = String::from_str(database);
    let known = String::from_str("mongo");
    if asked == known {
        Ok(Backend::Mongo { connection_string: mongo::connection_string(&params) })
    } else {
        Err(DBError { err_type: ErrorType::UnknownDBType })
    }
}

} // verus!
