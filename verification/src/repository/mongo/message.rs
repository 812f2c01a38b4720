//! Messages as the MongoDB backend keeps them.

use vstd::prelude::*;
use crate::repository::{DBError, ErrorType, MessageData, MsgParams};

verus! {

pub const COLLECTION_NAME: &'static str = "message";

pub const ROOM_NAME_FIELD: &'static str = "room_name";

pub const USER_NAME_FIELD: &'static str = "user_name";

pub const MESSAGE_FIELD: &'static str = "message";

pub const CREATED_AT_FIELD: &'static str = "created_at";

/// What a message document holds under its three text fields. A field that
/// is missing, or is no text, is `None`.
#[derive(Debug, PartialEq, Eq)]
pub struct MessageDocument {
    pub room_name: Option<String>,
    pub user_name: Option<String>,
    pub message: Option<String>,
}

impl MessageDocument {
    /// Whether all three fields are there.
    pub open spec fn complete(self) -> bool {
        self.room_name is Some && self.user_name is Some && self.message is Some
    }

    /// The message a complete document stands for.
    pub open spec fn message_data(self) -> MessageData
        recommends
            self.complete(),
    {
        MessageData {
            room_name: self.room_name->0,
            user_name: self.user_name->0,
            message: self.message->0,
        }
    }

    /// The message the document stands for; a document that lacks a field
    /// shows that the store is in an inconsistent state.
    pub fn to_message(&self) -> (message: Result<MessageData, DBError>)
        ensures
            match message {
                Ok(m) => self.complete() && m == self.message_data(),
                Err(e) => !self.complete() && e.err_type == ErrorType::InconsistentState,
            },
    {
        match (&self.room_name, &self.user_name, &self.message) {
            (Some(room_name), Some(user_name), Some(message)) => Ok(
                MessageData {
                    room_name: room_name.clone(),
                    user_name: user_name.clone(),
                    message: message.clone(),
                },
            ),
            _ => Err(DBError { err_type: ErrorType::InconsistentState }),
        }
    }
}

/// The stretch of a room's history that a request covers: how many messages
/// to skip and how many to return at most, counted from the most recent.
#[derive(Debug, Clone, Copy, PartialEq, Eq)]
pub struct Window {
    pub skip: u64,
    pub limit: i64,
}

/// The stretch of history that `params` asks for: page `page` of pages of
/// `size` messages. A request whose first message cannot be counted, because
/// the product is negative or too large, is refused.
pub fn window(params: &MsgParams) -> (stretch: Result<Window, DBError>)
    ensures
        match stretch {
            Ok(w) => w.skip == params.size * params.page && w.limit == params.size,
            Err(e) => e.err_type == ErrorType::InvalidParams && !(0 <= params.size * params.page
                <= i64::MAX),
        },
{
    match params.size.checked_mul(params.page) {
        Some(skip) => {
            if skip < 0 {
                Err(DBError { err_type: ErrorType::InvalidParams })
            } else {
                Ok(Window { skip: skip as u64, limit: params.size })
            }
        },
        None => Err(DBError { err_type: ErrorType::InvalidParams }),
    }
}

/// What is wrong with a row the cursor produced: `None` for a row that is a
/// complete document. A row the cursor failed on is `None` as a row.
pub open spec fn row_fault(row: Option<MessageDocument>) -> Option<ErrorType> {
    match row {
        None => Some(ErrorType::Other),
        Some(document) => if document.complete() {
            None
        } else {
            Some(ErrorType::InconsistentState)
        },
    }
}

/// Turns the rows of a cursor, in the cursor's order, into messages. The
/// first row that is at fault decides the error; without one, every row
/// gives its message, in the same order.
pub fn collect_messages(rows: &Vec<Option<MessageDocument>>) -> (page: Result<
    Vec<MessageData>,
    DBError,
>)
    ensures
        match page {
            Ok(messages) => {
                &&& messages@.len() == rows@.len()
                &&& forall|i: int|
                    0 <= i < rows@.len() ==> row_fault(#[trigger] rows@[i]) is None
                        && messages@[i] == rows@[i]->0.message_data()
            },
            Err(e) => exists|k: int|
                {
                    &&& 0 <= k < rows@.len()
                    &&& row_fault(#[trigger] rows@[k]) == Some(e.err_type)
                    &&& forall|j: int| 0 <= j < k ==> row_fault(#[trigger] rows@[j]) is None
                },
        },
{
    let mut messages: Vec<MessageData> = Vec::new();
    let mut i: usize = 0;
    while i < rows.len()
        invariant
            i <= rows@.len(),
            messages@.len() == i,
            forall|j: int|
                0 <= j < i ==> row_fault(#[trigger] rows@[j]) is None && messages@[j]
                    == rows@[j]->0.message_data(),
        decreases rows@.len() - i,
    {
        match &rows[i] {
            Some(document) => match document.to_message() {
                Ok(message) => messages.push(message),
                Err(e) => {
                    assert(row_fault(rows@[i as int]) == Some(e.err_type));
                    return Err(e);
                },
            },
            None => {
                assert(row_fault(rows@[i as int]) == Some(ErrorType::Other));
                return Err(DBError { err_type: ErrorType::Other });
            },
        }
        i += 1;
    }
    Ok(messages)
}

} // verus!
