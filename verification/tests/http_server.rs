use std::sync::{Arc, Mutex};

use chat_relay::chat::message::{Data, Login as LoginEvent, Msg, Terminate};
use chat_relay::chat::registry::{Client, LoginStep, Server};
use chat_relay::chat::{dispatch, history_request, MessageOutcome, Outcome};
use chat_relay::http_server::{
    add_room, add_room_reply, list_rooms, login, new, refusal, room_data, rooms_reply,
    token_entry, token_reply, Body, Login, Params, Reply, Room as RoomRequest, RoomResp, RoomsResp,
    ENTRY_EXISTS_RESPONSE, FORBIDDEN_ERROR_RESPONSE, INTERNAL_ERROR_RESPONSE, KEYWORDS_PARAM,
    MAX_BODY_SIZE, STATUS_BAD_REQUEST, STATUS_FORBIDDEN, STATUS_INTERNAL_SERVER_ERROR, STATUS_OK,
    WRONG_PARAMS_RESPONSE,
};
use chat_relay::repository::{
    DBError, ErrorType, Message, MessageData, MsgParams, Repository, Room, RoomData, Token,
    TokenData,
};

/// What the scripted stores answer and what was asked of them.
struct Script {
    authorize: Result<bool, DBError>,
    find: Result<Vec<RoomData>, DBError>,
    insert_room: Result<(), DBError>,
    insert_token: Result<(), DBError>,
    token_valid: Result<bool, DBError>,
    asked_authorize: Vec<(String, Option<String>)>,
    asked_keywords: Vec<Vec<String>>,
    inserted_rooms: Vec<RoomData>,
    inserted_tokens: Vec<(String, String)>,
}

impl Default for Script {
    fn default() -> Self {
        Script {
            authorize: Ok(true),
            find: Ok(Vec::new()),
            insert_room: Ok(()),
            insert_token: Ok(()),
            token_valid: Ok(true),
            asked_authorize: Vec::new(),
            asked_keywords: Vec::new(),
            inserted_rooms: Vec::new(),
            inserted_tokens: Vec::new(),
        }
    }
}

#[derive(Clone, Default)]
struct Scripted(Arc<Mutex<Script>>);

struct ScriptedTokens(Arc<Mutex<Script>>);

struct ScriptedRooms(Arc<Mutex<Script>>);

struct ScriptedMessages;

impl Token for ScriptedTokens {
    fn insert(&self, token: TokenData) -> Result<(), DBError> {
        let mut script = self.0.lock().unwrap();
        script.inserted_tokens.push((token.token.to_string(), token.room_name.to_string()));
        script.insert_token
    }

    fn delete(&self, _token: TokenData) -> Result<(), DBError> {
        Ok(())
    }

    fn get_valid(&self, _token: TokenData) -> Result<bool, DBError> {
        self.0.lock().unwrap().token_valid
    }
}

fn copy_of(room: &RoomData) -> RoomData {
    RoomData {
        name: room.name.clone(),
        password: room.password.clone(),
        keywords: room.keywords.clone(),
        description: room.description.clone(),
    }
}

impl Room for ScriptedRooms {
    fn authorize(&self, room_name: &str, password: Option<String>) -> Result<bool, DBError> {
        let mut script = self.0.lock().unwrap();
        script.asked_authorize.push((room_name.to_string(), password));
        script.authorize
    }

    fn find(&self, keywords: Vec<&str>) -> Result<Vec<RoomData>, DBError> {
        let mut script = self.0.lock().unwrap();
        script.asked_keywords.push(keywords.iter().map(|k| k.to_string()).collect());
        match &script.find {
            Ok(rooms) => Ok(rooms.iter().map(copy_of).collect()),
            Err(e) => Err(*e),
        }
    }

    fn insert(&self, chat: RoomData) -> Result<(), DBError> {
        let mut script = self.0.lock().unwrap();
        script.inserted_rooms.push(chat);
        script.insert_room
    }
}

impl Message for ScriptedMessages {
    fn insert(&self, _message: MessageData) -> Result<(), DBError> {
        Ok(())
    }

    fn get(&self, _params: MsgParams) -> Result<Vec<MessageData>, DBError> {
        Ok(vec![MessageData {
            room_name: String::from("lobby"),
            user_name: String::from("bob"),
            message: String::from("welcome"),
        }])
    }
}

impl Repository for Scripted {
    type Tokens = ScriptedTokens;
    type Rooms = ScriptedRooms;
    type Messages = ScriptedMessages;

    fn token(&self) -> Box<ScriptedTokens> {
        Box::new(ScriptedTokens(self.0.clone()))
    }

    fn room(&self) -> Box<ScriptedRooms> {
        Box::new(ScriptedRooms(self.0.clone()))
    }

    fn message(&self) -> Box<ScriptedMessages> {
        Box::new(ScriptedMessages)
    }
}

fn error(err_type: ErrorType) -> DBError {
    DBError { err_type }
}

fn text(status: u16, body: &str) -> Reply {
    Reply { status, body: Body::Text(body.to_string()) }
}

fn internal_error() -> Reply {
    text(500, "Internal error")
}

fn room(name: &str, password: Option<&str>) -> RoomData {
    RoomData {
        name: name.to_string(),
        password: password.map(String::from),
        keywords: Some(vec![String::from("open")]),
        description: Some(format!("the {}", name)),
    }
}

#[test]
fn http_constants_are_the_documented_ones() {
    assert_eq!(MAX_BODY_SIZE, 16384);
    assert_eq!(ENTRY_EXISTS_RESPONSE, "Entry already exists");
    assert_eq!(FORBIDDEN_ERROR_RESPONSE, "Forbidden");
    assert_eq!(INTERNAL_ERROR_RESPONSE, "Internal error");
    assert_eq!(WRONG_PARAMS_RESPONSE, "Wrong params");
    assert_eq!(KEYWORDS_PARAM, "keywords");
    assert_eq!(
        (STATUS_OK, STATUS_BAD_REQUEST, STATUS_FORBIDDEN, STATUS_INTERNAL_SERVER_ERROR),
        (200, 400, 403, 500)
    );
}

#[test]
fn new_server_keeps_params_and_repository() {
    let params = Params { ip_address: [127, 0, 0, 1], port: 8080 };
    let server = new(params, Scripted::default());
    assert_eq!(server.params, params);
    assert!(server.repository.0.lock().unwrap().inserted_rooms.is_empty());
}

#[test]
fn rooms_reply_hides_passwords_and_keeps_order() {
    let reply = rooms_reply(Ok(vec![room("vault", Some("hash")), room("lobby", None)]));
    assert_eq!(
        reply,
        Reply {
            status: 200,
            body: Body::Rooms(RoomsResp {
                data: vec![
                    RoomResp {
                        name: String::from("vault"),
                        password: true,
                        keywords: Some(vec![String::from("open")]),
                        description: Some(String::from("the vault")),
                    },
                    RoomResp {
                        name: String::from("lobby"),
                        password: false,
                        keywords: Some(vec![String::from("open")]),
                        description: Some(String::from("the lobby")),
                    },
                ]
            })
        }
    );
    assert_eq!(
        rooms_reply(Ok(Vec::new())),
        Reply { status: 200, body: Body::Rooms(RoomsResp { data: Vec::new() }) }
    );
}

#[test]
fn rooms_reply_to_failed_search_is_internal_error() {
    assert_eq!(rooms_reply(Err(error(ErrorType::Other))), internal_error());
    assert_eq!(rooms_reply(Err(error(ErrorType::InconsistentState))), internal_error());
}

#[test]
fn list_rooms_splits_keywords_at_commas() {
    let repo = Scripted::default();
    repo.0.lock().unwrap().find = Ok(vec![room("lobby", None)]);
    let reply = list_rooms(Some(String::from("rust,chat,")), &repo);
    assert_eq!(reply.status, 200);
    list_rooms(None, &repo);
    list_rooms(Some(String::new()), &repo);
    list_rooms(Some(String::from("solo")), &repo);
    assert_eq!(
        repo.0.lock().unwrap().asked_keywords,
        vec![
            vec![String::from("rust"), String::from("chat"), String::new()],
            vec![String::new()],
            vec![String::new()],
            vec![String::from("solo")],
        ]
    );
}

#[test]
fn list_rooms_reports_store_failure() {
    let repo = Scripted::default();
    repo.0.lock().unwrap().find = Err(error(ErrorType::Connection));
    assert_eq!(list_rooms(Some(String::from("rust")), &repo), internal_error());
}

#[test]
fn refusal_for_each_answer_of_the_room_store() {
    assert_eq!(refusal(Ok(true)), None);
    assert_eq!(refusal(Ok(false)), Some(text(403, "Forbidden")));
    assert_eq!(refusal(Err(error(ErrorType::InvalidParams))), Some(text(400, "Wrong params")));
    for kind in [
        ErrorType::Connection,
        ErrorType::Config,
        ErrorType::UnknownDBType,
        ErrorType::EntryExists,
        ErrorType::InconsistentState,
        ErrorType::Other,
    ] {
        assert_eq!(refusal(Err(error(kind))), Some(internal_error()));
    }
}

#[test]
fn token_reply_hands_out_the_token_if_it_was_kept() {
    assert_eq!(token_reply(String::from("abc-123"), Ok(())), text(200, "abc-123"));
    assert_eq!(
        token_reply(String::from("abc-123"), Err(error(ErrorType::Other))),
        internal_error()
    );
}

#[test]
fn token_entry_names_token_and_room() {
    assert_eq!(token_entry("vault", "abc-123"), TokenData { token: "abc-123", room_name: "vault" });
}

#[test]
fn login_hands_out_a_fresh_token_filed_for_the_room() {
    let repo = Scripted::default();
    let request = Login { room_name: String::from("vault"), password: Some(String::from("pw")) };
    let reply = login(request, &repo);
    let script = repo.0.lock().unwrap();
    assert_eq!(script.asked_authorize, vec![(String::from("vault"), Some(String::from("pw")))]);
    assert_eq!(script.inserted_tokens.len(), 1);
    let (token, room_name) = &script.inserted_tokens[0];
    assert_eq!(room_name, "vault");
    assert_eq!(reply, text(200, token));
    assert_eq!(token.len(), 36);
    assert_eq!(token.matches('-').count(), 4);
}

#[test]
fn login_tokens_differ_from_request_to_request() {
    let repo = Scripted::default();
    for _ in 0..2 {
        login(Login { room_name: String::from("lobby"), password: None }, &repo);
    }
    let script = repo.0.lock().unwrap();
    assert_ne!(script.inserted_tokens[0].0, script.inserted_tokens[1].0);
}

#[test]
fn login_is_turned_down_without_a_token() {
    for (answer, reply) in [
        (Ok(false), text(403, "Forbidden")),
        (Err(error(ErrorType::InvalidParams)), text(400, "Wrong params")),
        (Err(error(ErrorType::Other)), internal_error()),
    ] {
        let repo = Scripted::default();
        repo.0.lock().unwrap().authorize = answer;
        let request = Login { room_name: String::from("vault"), password: None };
        assert_eq!(login(request, &repo), reply);
        assert!(repo.0.lock().unwrap().inserted_tokens.is_empty());
    }
}

#[test]
fn login_reports_a_token_that_could_not_be_kept() {
    let repo = Scripted::default();
    repo.0.lock().unwrap().insert_token = Err(error(ErrorType::Other));
    let request = Login { room_name: String::from("vault"), password: None };
    assert_eq!(login(request, &repo), internal_error());
}

#[test]
fn add_room_reply_for_each_answer_of_the_room_store() {
    assert_eq!(add_room_reply(Ok(())), text(200, ""));
    assert_eq!(
        add_room_reply(Err(error(ErrorType::EntryExists))),
        text(400, "Entry already exists")
    );
    assert_eq!(add_room_reply(Err(error(ErrorType::Other))), internal_error());
    assert_eq!(add_room_reply(Err(error(ErrorType::InvalidParams))), internal_error());
}

#[test]
fn add_room_hands_the_request_to_the_room_store() {
    let repo = Scripted::default();
    let request = RoomRequest {
        name: String::from("attic"),
        password: Some(String::from("pw")),
        keywords: Some(vec![String::from("quiet")]),
        description: None,
    };
    assert_eq!(add_room(request, &repo), text(200, ""));
    assert_eq!(
        repo.0.lock().unwrap().inserted_rooms,
        vec![RoomData {
            name: String::from("attic"),
            password: Some(String::from("pw")),
            keywords: Some(vec![String::from("quiet")]),
            description: None,
        }]
    );

    repo.0.lock().unwrap().insert_room = Err(error(ErrorType::EntryExists));
    let again = RoomRequest {
        name: String::from("attic"),
        password: None,
        keywords: None,
        description: None,
    };
    assert_eq!(add_room(again, &repo), text(400, "Entry already exists"));
}

#[test]
fn room_request_becomes_room_data_and_shows_as_text() {
    let request = RoomRequest {
        name: String::from("attic"),
        password: None,
        keywords: None,
        description: Some(String::from("up")),
    };
    assert_eq!(request.to_string(), "name: attic password: null");
    assert_eq!(
        room_data(request),
        RoomData {
            name: String::from("attic"),
            password: None,
            keywords: None,
            description: Some(String::from("up")),
        }
    );
    let locked = RoomRequest {
        name: String::from("vault"),
        password: Some(String::from("pw")),
        keywords: None,
        description: None,
    };
    assert_eq!(locked.to_string(), "name: vault password: pw");
}

#[test]
fn dispatch_applies_each_kind_of_event() {
    let repo = Scripted::default();
    let mut server: Server<u8> = Server::default();
    assert_eq!(server.room_count(), 0);
    for id in [1, 2] {
        let pending = Client {
            sender: 0u8,
            addr: String::from("peer"),
            connection_id: id,
            room_name: String::from("unassigned"),
        };
        assert!(server.add_pending(pending).is_ok());
        let event = Data::Login(LoginEvent {
            room_name: String::from("lobby"),
            token: String::from("T"),
            connection_id: id,
            name: format!("user-{}", id),
        });
        match dispatch(event, &mut server, &repo) {
            Outcome::Login(plan) => {
                assert_eq!(plan.step, LoginStep::Joined);
                assert_eq!(plan.history, Some(history_request("lobby")));
                assert_eq!(plan.delete.as_data(), TokenData { token: "T", room_name: "lobby" });
            }
            _ => panic!("a login gives a login outcome"),
        }
    }
    assert_eq!(server.room_count(), 1);

    let event = Data::Message(Msg {
        msg: String::from("hi"),
        connection_id: 1,
        room_name: String::from("lobby"),
    });
    match dispatch(event, &mut server, &repo) {
        Outcome::Message(MessageOutcome::Relayed { broadcast: Some(plan), .. }) => {
            assert_eq!(plan.frame, r#"{"user_name":"user-1","msg":"hi"}"#);
            let ids: Vec<u32> = plan.recipients.iter().map(|c| c.connection_id).collect();
            assert_eq!(ids, vec![2]);
        }
        _ => panic!("a message of a member is relayed"),
    }

    let event = Data::Terminate(Terminate { room_name: String::from("lobby"), connection_id: 1 });
    assert_eq!(dispatch(event.clone(), &mut server, &repo), Outcome::Terminate(true));
    assert_eq!(dispatch(event, &mut server, &repo), Outcome::Terminate(false));
    assert_eq!(server.room_count(), 1);
    assert!(server.member("lobby", 2).is_some());
}
