//! The administrative HTTP surface: what it is started with and what it
//! answers. The transport is not here; each handler takes what a request
//! carried and gives the status and body to answer with.

use vstd::prelude::*;
use vstd::string::StringExecFns;
use crate::repository::{
    DBError, ErrorType, Repository, Room as RoomStore, RoomData, Token, TokenData,
};
use crate::text::split;

verus! {

/// The largest request body the service reads, in bytes.
pub const MAX_BODY_SIZE: u64 = 1024 * 16;

pub const ENTRY_EXISTS_RESPONSE: &'static str = "Entry already exists";

pub const FORBIDDEN_ERROR_RESPONSE: &'static str = "Forbidden";

pub const INTERNAL_ERROR_RESPONSE: &'static str = "Internal error";

pub const WRONG_PARAMS_RESPONSE: &'static str = "Wrong params";

/// The query parameter that carries the keywords of a search, separated by
/// commas.
pub const KEYWORDS_PARAM: &'static str = "keywords";

pub const STATUS_OK: u16 = 200;

pub const STATUS_BAD_REQUEST: u16 = 400;

pub const STATUS_FORBIDDEN: u16 = 403;

pub const STATUS_INTERNAL_SERVER_ERROR: u16 = 500;

/// Where the HTTP service listens.
#[derive(Debug, Clone, Copy, PartialEq, Eq)]
pub struct Params {
    pub ip_address: [u8; 4],
    pub port: u16,
}

/// The HTTP service: the repository it answers from and where it listens.
pub struct HttpServer<R: Repository> {
    pub repository: R,
    pub params: Params,
}

/// The HTTP service over `repository`, to listen at `params`.
pub fn new<R: Repository>(params: Params, repository: R) -> (server: HttpServer<R>)
    ensures
        server.params == params,
        server.repository == repository,
{
    HttpServer { params, repository }
}

/// The body of a request for a token.
#[derive(Debug, PartialEq, Eq)]
pub struct Login {
    pub room_name: String,
    pub password: Option<String>,
}

/// The body of a request for a new room.
#[derive(Debug, PartialEq, Eq)]
pub struct Room {
    pub name: String,
    pub password: Option<String>,
    pub keywords: Option<Vec<String>>,
    pub description: Option<String>,
}

impl Room {
    /// The text the request is shown as.
    pub open spec fn text(self) -> Seq<char> {
        "name: "@ + self.name@ + " password: "@ + match self.password {
            Some(p) => p@,
            None => "null"@,
        }
    }

    pub fn to_string(&self) -> (s: String)
        ensures
            s@ == self.text(),
    {
        let mut s = String::from_str("name: ");
        s.append(self.name.as_str());
        s.append(" password: ");
        match &self.password {
            Some(p) => s.append(p.as_str()),
            None => s.append("null"),
        }
        s
    }
}

/// A room as a search shows it: whether it has a password, never which.
#[derive(Debug, PartialEq, Eq)]
pub struct RoomResp {
    pub name: String,
    pub password: bool,
    pub keywords: Option<Vec<String>>,
    pub description: Option<String>,
}

/// The answer to a search.
#[derive(Debug, PartialEq, Eq)]
pub struct RoomsResp {
    pub data: Vec<RoomResp>,
}

/// What a reply carries; the transport writes it as JSON.
#[derive(Debug, PartialEq, Eq)]
pub enum Body {
    Text(String),
    Rooms(RoomsResp),
}

/// A status code and a body.
#[derive(Debug, PartialEq, Eq)]
pub struct Reply {
    pub status: u16,
    pub body: Body,
}

impl Reply {
    /// Whether the reply is `status` with the text `text`.
    pub open spec fn says(self, status: u16, text: Seq<char>) -> bool {
        &&& self.status == status
        &&& self.body matches Body::Text(t)
        &&& t@ == text
    }
}

impl RoomResp {
    /// Whether this is how a search shows `room`.
    pub open spec fn shows(self, room: RoomData) -> bool {
        &&& self.name == room.name
        &&& self.password == room.password is Some
        &&& self.keywords == room.keywords
        &&& self.description == room.description
    }
}

/// Whether `reply` answers a search that found `found`: the rooms in the
/// order they were found, or an internal error where the search failed.
pub open spec fn answers_search(reply: Reply, found: Result<Vec<RoomData>, DBError>) -> bool {
    match found {
        Ok(rooms) => {
            &&& reply.status == STATUS_OK
            &&& reply.body matches Body::Rooms(shown)
            &&& shown.data@.len() == rooms@.len()
            &&& forall|i: int|
                0 <= i < rooms@.len() ==> (#[trigger] shown.data@[i]).shows(rooms@[i])
        },
        Err(_) => reply.says(STATUS_INTERNAL_SERVER_ERROR, INTERNAL_ERROR_RESPONSE@),
    }
}

fn text_reply(status: u16, text: &str) -> (reply: Reply)
    ensures
        reply.says(status, text@),
{
    Reply { status, body: Body::Text(String::from_str(text)) }
}

/// The reply to a search that found `found`.
pub fn rooms_reply(found: Result<Vec<RoomData>, DBError>) -> (reply: Reply)
    ensures
        answers_search(reply, found),
{
    match found {
        Ok(rooms) => {
            let ghost all = rooms@;
            let mut data: Vec<RoomResp> = Vec::new();
            for room in it: rooms
                invariant
                    it.seq() == all,
                    data@.len() == it.index(),
                    forall|j: int| 0 <= j < data@.len() ==> (#[trigger] data@[j]).shows(all[j]),
            {
                let password = room.password.is_some();
                data.push(
                    RoomResp {
                        name: room.name,
                        password,
                        keywords: room.keywords,
                        description: room.description,
                    },
                );
            }
            Reply { status: STATUS_OK, body: Body::Rooms(RoomsResp { data }) }
        },
        Err(_) => text_reply(STATUS_INTERNAL_SERVER_ERROR, INTERNAL_ERROR_RESPONSE),
    }
}

/// Answers a search for rooms. `keywords` is what the request carried under
/// [`KEYWORDS_PARAM`]: it is split at its commas, the empty text where the
/// parameter is missing, and the room store is asked for the pieces.
pub fn list_rooms<R: Repository>(keywords: Option<String>, repository: &R) -> (reply: Reply)
    ensures
        exists|found: Result<Vec<RoomData>, DBError>| #[trigger] answers_search(reply, found),
{
    let text = match keywords {
        Some(k) => k,
        None => String::new(),
    };
    let keywords_param = split(text.as_str(), ',');
    let room_r = repository.room();
    let found = room_r.find(keywords_param);
    let ghost answer = found;
    let reply = rooms_reply(found);
    assert(answers_search(reply, answer));
    reply
}

/// Whether `reply` turns down a request for a token, given what the room
/// store said of room and password; `None` stands for a request that is
/// not turned down.
pub open spec fn turns_down(reply: Option<Reply>, auth: Result<bool, DBError>) -> bool {
    match auth {
        Ok(true) => reply is None,
        Ok(false) => {
            &&& reply matches Some(r)
            &&& r.says(STATUS_FORBIDDEN, FORBIDDEN_ERROR_RESPONSE@)
        },
        Err(e) => {
            &&& reply matches Some(r)
            &&& if e.err_type == ErrorType::InvalidParams {
                r.says(STATUS_BAD_REQUEST, WRONG_PARAMS_RESPONSE@)
            } else {
                r.says(STATUS_INTERNAL_SERVER_ERROR, INTERNAL_ERROR_RESPONSE@)
            }
        },
    }
}

/// The reply that turns down a request for a token, if it is to be turned
/// down: forbidden where the password does not open the room, a bad request
/// where the room wants a password and none came, an internal error where
/// the store failed.
pub fn refusal(auth: Result<bool, DBError>) -> (reply: Option<Reply>)
    ensures
        turns_down(reply, auth),
{
    match auth {
        Ok(true) => None,
        Ok(false) => Some(text_reply(STATUS_FORBIDDEN, FORBIDDEN_ERROR_RESPONSE)),
        Err(e) => match e.err_type {
            ErrorType::InvalidParams => Some(
                text_reply(STATUS_BAD_REQUEST, WRONG_PARAMS_RESPONSE),
            ),
            _ => Some(text_reply(STATUS_INTERNAL_SERVER_ERROR, INTERNAL_ERROR_RESPONSE)),
        },
    }
}

/// The reply that hands out `token`, given what the token store said when it
/// was asked to keep it.
pub fn token_reply(token: String, inserted: Result<(), DBError>) -> (reply: Reply)
    ensures
        match inserted {
            Ok(_) => reply.says(STATUS_OK, token@),
            Err(_) => reply.says(STATUS_INTERNAL_SERVER_ERROR, INTERNAL_ERROR_RESPONSE@),
        },
{
    match inserted {
        Ok(_) => Reply { status: STATUS_OK, body: Body::Text(token) },
        Err(_) => text_reply(STATUS_INTERNAL_SERVER_ERROR, INTERNAL_ERROR_RESPONSE),
    }
}

/// Whether `reply` answers a request for a token, given what the room store
/// said of room and password, the token that was made, and what the token
/// store said when asked to keep it.
pub open spec fn answers_login(
    reply: Reply,
    auth: Result<bool, DBError>,
    token: Seq<char>,
    inserted: Result<(), DBError>,
) -> bool {
    match auth {
        Ok(true) => match inserted {
            Ok(_) => reply.says(STATUS_OK, token),
            Err(_) => reply.says(STATUS_INTERNAL_SERVER_ERROR, INTERNAL_ERROR_RESPONSE@),
        },
        _ => turns_down(Some(reply), auth),
    }
}

/// The entry to file with the token store for a token that is handed out:
/// the token, for the room the request named.
pub fn token_entry<'a>(room_name: &'a str, token: &'a str) -> (entry: TokenData<'a>)
    ensures
        entry.token@ == token@,
        entry.room_name@ == room_name@,
{
    TokenData { room_name, token }
}

/// Calls `uuid::Uuid::new_v4` and writes the id in its hyphenated form. The
/// id is random: nothing is promised of it.
#[verifier::external_body]
pub(crate) fn fresh_token() -> (token: String) {
    uuid::Uuid::new_v4().hyphenated().to_string()
}

/// Answers a request for a token: where the password opens the room, a
/// fresh token is filed with the token store for that room and handed out.
pub fn login<R: Repository>(request: Login, repository: &R) -> (reply: Reply)
    ensures
        exists|auth: Result<bool, DBError>, token: Seq<char>, inserted: Result<(), DBError>|
            #[trigger] answers_login(reply, auth, token, inserted),
{
    let room = repository.room();
    let auth = room.authorize(request.room_name.as_str(), request.password);
    match refusal(auth) {
        Some(reply) => {
            assert(answers_login(reply, auth, Seq::empty(), Ok(())));
            reply
        },
        None => {
            let uuid_string = fresh_token();
            let token_r = repository.token();
            let inserted = token_r.insert(
                token_entry(request.room_name.as_str(), uuid_string.as_str()),
            );
            let ghost token = uuid_string@;
            let reply = token_reply(uuid_string, inserted);
            assert(answers_login(reply, auth, token, inserted));
            reply
        },
    }
}

/// The room a request for a new room describes.
pub fn room_data(room_req: Room) -> (room: RoomData)
    ensures
        room.name == room_req.name,
        room.password == room_req.password,
        room.keywords == room_req.keywords,
        room.description == room_req.description,
{
    RoomData {
        name: room_req.name,
        password: room_req.password,
        keywords: room_req.keywords,
        description: room_req.description,
    }
}

/// Whether `reply` answers a request for a new room, given what the room
/// store said when asked to keep it.
pub open spec fn answers_add_room(reply: Reply, inserted: Result<(), DBError>) -> bool {
    match inserted {
        Ok(_) => reply.says(STATUS_OK, Seq::empty()),
        Err(e) => if e.err_type == ErrorType::EntryExists {
            reply.says(STATUS_BAD_REQUEST, ENTRY_EXISTS_RESPONSE@)
        } else {
            reply.says(STATUS_INTERNAL_SERVER_ERROR, INTERNAL_ERROR_RESPONSE@)
        },
    }
}

/// The reply to a request for a new room: empty where the room was kept, a
/// bad request where a room of that name exists, an internal error where
/// the store failed otherwise.
pub fn add_room_reply(inserted: Result<(), DBError>) -> (reply: Reply)
    ensures
        answers_add_room(reply, inserted),
{
    match inserted {
        Ok(_) => Reply { status: STATUS_OK, body: Body::Text(String::new()) },
        Err(e) => match e.err_type {
            ErrorType::EntryExists => text_reply(STATUS_BAD_REQUEST, ENTRY_EXISTS_RESPONSE),
            _ => text_reply(STATUS_INTERNAL_SERVER_ERROR, INTERNAL_ERROR_RESPONSE),
        },
    }
}

/// Answers a request for a new room.
pub fn add_room<R: Repository>(room_req: Room, repository: &R) -> (reply: Reply)
    ensures
        exists|inserted: Result<(), DBError>| #[trigger] answers_add_room(reply, inserted),
{
    let room = repository.room();
    let inserted = room.insert(room_data(room_req));
    let reply = add_room_reply(inserted);
    assert(answers_add_room(reply, inserted));
    reply
}

} // verus!
