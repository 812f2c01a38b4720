//! The relay's core: connections, rooms and the events that move them.
//!
//! The dispatcher is the one place where events change the registry. Each
//! handler here applies one event and says what is to be done about it: what
//! to persist, what to send and to whom, which history to fetch, which token
//! to delete, which socket to close. Doing it is the caller's part.

pub mod handler;
pub mod json;
pub mod message;
pub mod registry;
pub mod theorems;

use vstd::prelude::*;
use crate::chat::message::{encode_frame, frame_text, Data, Login, Msg, Terminate};
use crate::chat::registry::{ids_of, Client, LoginStep, Server, ServerView};
use crate::repository::{DBError, MessageData, MsgParams, Repository, Token, TokenData};

verus! {

/// How many messages of a room's history a login replays.
pub const DEFAULT_PAGE_SIZE: i64 = 30;

/// Which page of the history a login replays: the most recent one.
pub const DEFAULT_PAGE_INDEX: i64 = 0;

/// How many connections the listener accepts at a time.
pub const WS_MAX_CONNECTIONS: usize = 60_000;

/// The pause between two replayed frames, in milliseconds, so that a slow
/// client keeps up.
pub const REPLAY_PAUSE_MILLIS: u64 = 100;

/// Where the relay listens.
#[derive(Debug, PartialEq, Eq)]
pub struct Params {
    pub ws_address: String,
}

/// One frame and the connections it is to be sent to.
#[derive(Debug, PartialEq, Eq)]
pub struct Broadcast<'a, S> {
    pub frame: String,
    pub recipients: Vec<&'a Client<S>>,
}

impl<'a, S> Broadcast<'a, S> {
    /// Whether this is the fan-out of `text`, said by `user_name`, from
    /// connection `sender` into `room` of registry `v`: the frame is the wire
    /// form of name and text, and it goes once to each member of the room but
    /// the sender, with the record the registry holds of that member.
    pub open spec fn delivers(
        self,
        v: ServerView<S>,
        room: Seq<char>,
        sender: u32,
        user_name: Seq<char>,
        text: Seq<char>,
    ) -> bool {
        &&& self.frame@ == frame_text(user_name, text)
        &&& ids_of(self.recipients@).no_duplicates()
        &&& ids_of(self.recipients@).to_set() == v.recipients(room, sender)
        &&& forall|i: int|
            0 <= i < self.recipients@.len() ==> #[trigger] self.recipients@[i]@
                == v.connections[room][self.recipients@[i].connection_id]
    }
}

/// Plans the fan-out of `message`, said by `user_name`, into `room_name`.
///
/// Nothing is sent where the room has no entry. Otherwise the frame goes to
/// every member of the room except the connection the message came from.
pub fn broadcast<'a, S>(
    server: &'a Server<S>,
    room_name: &str,
    user_name: &str,
    message: &Msg,
) -> (plan: Option<Broadcast<'a, S>>)
    ensures
        match plan {
            Some(b) => server@.connections.contains_key(room_name@) && b.delivers(
                server@,
                room_name@,
                message.connection_id,
                user_name@,
                message.msg@,
            ),
            None => !server@.connections.contains_key(room_name@),
        },
{
    if !server.has_room(room_name) {
        return None;
    }
    let frame = encode_frame(user_name, message.msg.as_str());
    let recipients = server.recipients(room_name, message.connection_id);
    Some(Broadcast { frame, recipients })
}

/// The record to persist for `msg`, said by `user_name`.
pub fn message_record(msg: &Msg, user_name: &str) -> (record: MessageData)
    ensures
        record.message@ == msg.msg@,
        record.user_name@ == user_name@,
        record.room_name@ == msg.room_name@,
{
    MessageData {
        message: msg.msg.clone(),
        user_name: user_name.to_owned(),
        room_name: msg.room_name.clone(),
    }
}

/// What is to be done about a chat message.
#[derive(Debug, PartialEq, Eq)]
pub enum MessageOutcome<'a, S> {
    /// The connection has no display name: it has not logged in. The message
    /// is dropped: nothing is to be persisted and nothing is to be sent.
    Dropped,
    /// `record` is to be handed to the message store, once, and then
    /// `broadcast` is to be sent, whatever the store answered.
    Relayed { record: MessageData, broadcast: Option<Broadcast<'a, S>> },
}

impl<'a, S> MessageOutcome<'a, S> {
    /// Whether this is what is to be done about `msg` in registry `v`.
    ///
    /// * The sender has no display name: the message is dropped.
    /// * Otherwise the record to persist names the room of the message, the
    ///   sender's display name and the text, and the fan-out is the one into
    ///   the room the message names; there is none where that room has no
    ///   entry.
    pub open spec fn answers(self, v: ServerView<S>, msg: Msg) -> bool {
        match self {
            MessageOutcome::Dropped => !v.user_names.contains_key(msg.connection_id),
            MessageOutcome::Relayed { record, broadcast } => {
                &&& v.user_names.contains_key(msg.connection_id)
                &&& record.room_name@ == msg.room_name@
                &&& record.user_name@ == v.user_names[msg.connection_id]
                &&& record.message@ == msg.msg@
                &&& match broadcast {
                    Some(b) => v.connections.contains_key(msg.room_name@) && b.delivers(
                        v,
                        msg.room_name@,
                        msg.connection_id,
                        v.user_names[msg.connection_id],
                        msg.msg@,
                    ),
                    None => !v.connections.contains_key(msg.room_name@),
                }
            },
        }
    }
}

/// Handles a chat message: a message from a connection without a display
/// name is dropped; any other is to be persisted under the sender's name and
/// fanned out to the other members of the room it names.
pub fn handle_message<'a, S>(msg: Msg, server: &'a Server<S>) -> (outcome: MessageOutcome<'a, S>)
    ensures
        server@.wf(),
        outcome.answers(server@, msg),
{
    match server.user_name(msg.connection_id) {
        Some(user_name) => {
            let record = message_record(&msg, user_name.as_str());
            let broadcast = broadcast(server, msg.room_name.as_str(), user_name.as_str(), &msg);
            MessageOutcome::Relayed { record, broadcast }
        },
        None => MessageOutcome::Dropped,
    }
}

/// Handles the end of a connection: it leaves the room it named, if it is a
/// member there. Says whether it was; ending twice, or before any login, is
/// no error.
pub fn handle_terminate<S>(terminate: Terminate, server: &mut Server<S>) -> (removed: bool)
    ensures
        final(server)@ == old(server)@.terminate(terminate.connection_id, terminate.room_name@),
        final(server)@.wf(),
        removed == old(server)@.is_member(terminate.room_name@, terminate.connection_id),
{
    server.terminate(terminate.connection_id, terminate.room_name.as_str())
}

/// The texts of a list of frames.
pub open spec fn texts(frames: Seq<String>) -> Seq<Seq<char>> {
    Seq::new(frames.len(), |i: int| frames[i]@)
}

/// The frames that replay a page of history: one per message, in the order
/// the store returned them.
pub open spec fn replay_text(history: Seq<MessageData>) -> Seq<Seq<char>> {
    Seq::new(history.len(), |i: int| frame_text(history[i].user_name@, history[i].message@))
}

/// The frames to replay for what the message store answered: those of the
/// page it returned, or none where it failed.
pub open spec fn replay_of(history: Result<Vec<MessageData>, DBError>) -> Seq<Seq<char>> {
    match history {
        Ok(page) => replay_text(page@),
        Err(_) => Seq::empty(),
    }
}

/// The request for the history a login replays: the most recent page of the
/// room, of the fixed size.
pub fn history_request(room_name: &str) -> (params: MsgParams)
    ensures
        params.page == DEFAULT_PAGE_INDEX,
        params.size == DEFAULT_PAGE_SIZE,
        params.room_name@ == room_name@,
{
    MsgParams { page: DEFAULT_PAGE_INDEX, room_name: room_name.to_owned(), size: DEFAULT_PAGE_SIZE }
}

/// Turns what the message store answered into the frames to replay: one
/// frame per message of the page, in the store's order, none where the store
/// failed. They are to be sent to the connection that joined, one after the
/// other, before any later event is handled.
pub fn replay_frames(history: &Result<Vec<MessageData>, DBError>) -> (frames: Vec<String>)
    ensures
        texts(frames@) == replay_of(*history),
{
    let mut frames: Vec<String> = Vec::new();
    match history {
        Ok(page) => {
            let mut i: usize = 0;
            while i < page.len()
                invariant
                    i <= page.len(),
                    frames@.len() == i,
                    forall|j: int|
                        0 <= j < i ==> (#[trigger] frames@[j])@ == frame_text(
                            page@[j].user_name@,
                            page@[j].message@,
                        ),
                decreases page.len() - i,
            {
                frames.push(encode_frame(page[i].user_name.as_str(), page[i].message.as_str()));
                i += 1;
            }
            assert(texts(frames@) =~= replay_text(page@));
        },
        Err(_) => {
            assert(texts(frames@) =~= Seq::<Seq<char>>::empty());
        },
    }
    frames
}

/// The token a login presents and the room it presents it for: what the
/// token store is asked to check.
pub fn token_of<'a>(login: &'a Login) -> (token: TokenData<'a>)
    ensures
        token.token@ == login.token@,
        token.room_name@ == login.room_name@,
{
    TokenData { token: login.token.as_str(), room_name: login.room_name.as_str() }
}

/// A token and the room it was presented for, to be deleted from the token
/// store.
#[derive(Debug, PartialEq, Eq)]
pub struct TokenEntry {
    pub token: String,
    pub room_name: String,
}

impl TokenEntry {
    /// The entry as the token store takes it.
    pub fn as_data<'a>(&'a self) -> (token: TokenData<'a>)
        ensures
            token.token@ == self.token@,
            token.room_name@ == self.room_name@,
    {
        TokenData { token: self.token.as_str(), room_name: self.room_name.as_str() }
    }
}

/// What is to be done about a login attempt.
#[derive(Debug, PartialEq, Eq)]
pub struct LoginPlan<S> {
    /// How the attempt ended for the registry, with the connection to close
    /// where it was rejected.
    pub step: LoginStep<S>,
    /// The history to fetch from the message store, once, and to replay to
    /// the connection: there where it joined, and only there.
    pub history: Option<MsgParams>,
    /// The token to delete from the token store, once, however the attempt
    /// ended. A failure to delete it changes nothing.
    pub delete: TokenEntry,
}

impl<S> LoginPlan<S> {
    /// Whether this is what is to be done about `login` in registry
    /// `before`, given what the token store said of the token.
    ///
    /// * The token the login presented, for the room it named, is to be
    ///   deleted: on every path.
    /// * History is to be fetched exactly where the connection joined: the
    ///   most recent page of the room it named, of the fixed size.
    pub open spec fn answers(
        self,
        before: ServerView<S>,
        login: Login,
        validity: Result<bool, DBError>,
    ) -> bool {
        &&& self.step.answers(before, login.connection_id, validity)
        &&& self.delete.token@ == login.token@
        &&& self.delete.room_name@ == login.room_name@
        &&& match self.history {
            Some(params) => {
                &&& self.step is Joined
                &&& params.page == DEFAULT_PAGE_INDEX
                &&& params.size == DEFAULT_PAGE_SIZE
                &&& params.room_name@ == login.room_name@
            },
            None => !(self.step is Joined),
        }
    }
}

/// Applies a login attempt, given what the token store said of its token,
/// and plans what follows.
///
/// The registry changes as [`ServerView::login`] says. Where the connection
/// joined, the most recent page of the room's history is to be fetched and
/// replayed to it. Whatever happened, the token is to be deleted.
pub fn plan_login<S>(login: Login, server: &mut Server<S>, validity: Result<bool, DBError>) -> (plan:
    LoginPlan<S>)
    ensures
        final(server)@ == old(server)@.login(
            login.connection_id,
            login.room_name@,
            login.name@,
            validity,
        ),
        final(server)@.wf(),
        plan.answers(old(server)@, login, validity),
{
    let step = server.apply_login(&login, validity);
    let history = match step {
        LoginStep::Joined => Some(history_request(login.room_name.as_str())),
        _ => None,
    };
    LoginPlan { step, history, delete: TokenEntry { token: login.token, room_name: login.room_name } }
}

/// Handles a login attempt: asks the token store whether the token is valid
/// for the room the login names, and goes on as [`plan_login`] says with the
/// store's answer.
pub fn handle_login<S, R: Repository>(login: Login, server: &mut Server<S>, repo: &R) -> (plan:
    LoginPlan<S>)
    ensures
        final(server)@.wf(),
        plan.delete.token@ == login.token@,
        plan.delete.room_name@ == login.room_name@,
        exists|validity: Result<bool, DBError>|
            {
                &&& final(server)@ == old(server)@.login(
                    login.connection_id,
                    login.room_name@,
                    login.name@,
                    validity,
                )
                &&& #[trigger] plan.answers(old(server)@, login, validity)
            },
{
    let token_r = repo.token();
    let validity = token_r.get_valid(token_of(&login));
    let plan = plan_login(login, server, validity);
    assert(plan.answers(old(server)@, login, validity));
    plan
}

/// What is to be done about an event.
#[derive(Debug, PartialEq, Eq)]
pub enum Outcome<'a, S> {
    Message(MessageOutcome<'a, S>),
    Login(LoginPlan<S>),
    Terminate(bool),
}

/// Applies one event to the registry: the single step of the dispatcher,
/// which handles events one at a time in the order they arrived.
pub fn dispatch<'a, S, R: Repository>(data: Data, server: &'a mut Server<S>, repo: &R) -> (outcome:
    Outcome<'a, S>)
    ensures
        final(server)@.wf(),
        match data {
            Data::Message(msg) => {
                &&& final(server)@ == old(server)@
                &&& outcome matches Outcome::Message(o)
                &&& o.answers(old(server)@, msg)
            },
            Data::Login(login) => {
                &&& outcome matches Outcome::Login(plan)
                &&& exists|validity: Result<bool, DBError>|
                    {
                        &&& final(server)@ == old(server)@.login(
                            login.connection_id,
                            login.room_name@,
                            login.name@,
                            validity,
                        )
                        &&& #[trigger] plan.answers(old(server)@, login, validity)
                    }
            },
            Data::Terminate(t) => {
                &&& final(server)@ == old(server)@.terminate(t.connection_id, t.room_name@)
                &&& outcome == Outcome::<S>::Terminate(
                    old(server)@.is_member(t.room_name@, t.connection_id),
                )
            },
        },
{
    match data {
        Data::Message(msg) => {
            let server: &'a Server<S> = server;
            Outcome::Message(handle_message(msg, server))
        },
        Data::Login(login) => Outcome::Login(handle_login(login, server, repo)),
        Data::Terminate(terminate) => Outcome::Terminate(handle_terminate(terminate, server)),
    }
}

} // verus!
