//! Rooms as the MongoDB backend keeps them, and the password check that
//! guards them.

use vstd::prelude::*;
use crate::repository::{DBError, ErrorType, RoomData};

verus! {

pub const COLLECTION_NAME: &'static str = "room";

pub const NAME_FIELD: &'static str = "name";

pub const KEYWORDS_FIELD: &'static str = "keywords";

pub const BCRYPT_PASS_FIELD: &'static str = "bcrypt_pass";

pub const DESCRIPTION_FIELD: &'static str = "description";

/// The cost rooms' passwords are hashed with.
pub const HASH_COST: u32 = 12;

/// The error `bcrypt` reports; the backend only tells it from success.
#[verifier::external_type_specification]
#[verifier::external_body]
pub struct ExBcryptError(bcrypt::BcryptError);

/// What `bcrypt::verify` says of a password and a stored hash: whether the
/// password is the one that was hashed, or `None` where it reports an error,
/// as it does for a text that is no bcrypt hash.
pub uninterp spec fn bcrypt_verified(password: Seq<char>, hash: Seq<char>) -> Option<bool>;

/// Calls `bcrypt::verify`. The contract only names what comes back: the same
/// password and hash always give the same answer.
#[verifier::external_body]
pub(crate) fn bcrypt_verify(password: &str, hash: &str) -> (answer: Result<
    bool,
    bcrypt::BcryptError,
>)
    ensures
        match answer {
            Ok(same) => bcrypt_verified(password@, hash@) == Some(same),
            Err(_) => bcrypt_verified(password@, hash@) is None,
        },
{
    bcrypt::verify(password, hash)
}

/// Calls `bcrypt::hash`, which salts the password at random: nothing is
/// promised of the hash that comes back.
#[verifier::external_body]
pub(crate) fn bcrypt_hash(password: &str, cost: u32) -> (hashed: Result<
    String,
    bcrypt::BcryptError,
>) {
    bcrypt::hash(password, cost)
}

/// An owned copy of an optional text.
pub fn convert_option_string(input: Option<&str>) -> (output: Option<String>)
    ensures
        match output {
            Some(s) => input is Some && s@ == input->0@,
            None => input is None,
        },
{
    match input {
        Some(s) => Some(s.to_owned()),
        None => None,
    }
}

/// What a room document holds. A field that is missing, or is not of the
/// kind it should be, is `None`; so is a keyword that is no text.
#[derive(Debug, PartialEq, Eq)]
pub struct RoomDocument {
    pub name: Option<String>,
    pub bcrypt_pass: Option<String>,
    pub keywords: Option<Vec<Option<String>>>,
    pub description: Option<String>,
}

/// The verdict on a password check.
pub open spec fn verdict_of(verified: Option<bool>) -> Result<bool, DBError> {
    match verified {
        Some(same) => Ok(same),
        None => Err(DBError { err_type: ErrorType::Other }),
    }
}

/// Whether `password` opens the room that was found under a name.
///
/// * No room was found: no.
/// * The room keeps no password: yes, whatever was presented.
/// * The room keeps a password and none was presented: the request is
///   invalid.
/// * Otherwise the password check decides, and its failure is an error.
pub open spec fn authorized(found: Option<RoomDocument>, password: Option<String>) -> Result<
    bool,
    DBError,
> {
    match found {
        None => Ok(false),
        Some(room) => match room.bcrypt_pass {
            None => Ok(true),
            Some(hash) => match password {
                None => Err(DBError { err_type: ErrorType::InvalidParams }),
                Some(p) => verdict_of(bcrypt_verified(p@, hash@)),
            },
        },
    }
}

/// The verdict on what the password check answered.
pub fn verdict(answer: Result<bool, bcrypt::BcryptError>) -> (out: Result<bool, DBError>)
    ensures
        out == verdict_of(
            match answer {
                Ok(same) => Some(same),
                Err(_) => None,
            },
        ),
{
    match answer {
        Ok(same) => Ok(same),
        Err(_) => Err(DBError { err_type: ErrorType::Other }),
    }
}

/// Decides whether `password` opens the room that was found.
pub fn authorize(found: Option<&RoomDocument>, password: Option<String>) -> (out: Result<
    bool,
    DBError,
>)
    ensures
        out == authorized(
            match found {
                Some(room) => Some(*room),
                None => None,
            },
            password,
        ),
{
    let room = match found {
        Some(room) => room,
        None => {
            return Ok(false);
        },
    };
    let hash = match &room.bcrypt_pass {
        Some(hash) => hash,
        None => {
            return Ok(true);
        },
    };
    match password {
        None => Err(DBError { err_type: ErrorType::InvalidParams }),
        Some(p) => verdict(bcrypt_verify(p.as_str(), hash.as_str())),
    }
}

/// Whether a search is narrowed by keywords: it is, unless no keyword was
/// given or the only one is empty.
pub fn filters_by_keywords(keywords: &Vec<&str>) -> (narrowed: bool)
    ensures
        narrowed == (keywords@.len() > 1 || (keywords@.len() == 1 && keywords@[0]@.len() != 0)),
{
    keywords.len() > 1 || (keywords.len() == 1 && !keywords[0].is_empty())
}

/// What a room keeps of its password, given what hashing it gave: the hash,
/// or an error where hashing failed.
pub fn kept_hash(hashed: Result<String, bcrypt::BcryptError>) -> (kept: Result<
    Option<String>,
    DBError,
>)
    ensures
        match hashed {
            Ok(hash) => kept == Ok::<Option<String>, DBError>(Some(hash)),
            Err(_) => kept == Err::<Option<String>, DBError>(
                DBError { err_type: ErrorType::Other },
            ),
        },
{
    match hashed {
        Ok(hash) => Ok(Some(hash)),
        Err(_) => Err(DBError { err_type: ErrorType::Other }),
    }
}

/// The password as a new room keeps it: hashed, or absent where the room has
/// none. A failure to hash is an error.
pub fn stored_password(password: &Option<String>) -> (kept: Result<Option<String>, DBError>)
    ensures
        match kept {
            Ok(hash) => hash is Some <==> password is Some,
            Err(e) => password is Some && e.err_type == ErrorType::Other,
        },
{
    match password {
        Some(p) => kept_hash(bcrypt_hash(p.as_str(), HASH_COST)),
        None => Ok(None),
    }
}

/// Which error a failed insertion of a room is: a write the server refused
/// means that a room of that name is there already.
pub fn insertion_error(write_refused: bool) -> (e: DBError)
    ensures
        e.err_type == if write_refused {
            ErrorType::EntryExists
        } else {
            ErrorType::Other
        },
{
    if write_refused {
        DBError { err_type: ErrorType::EntryExists }
    } else {
        DBError { err_type: ErrorType::Other }
    }
}

impl RoomDocument {
    /// Whether the document can be read as a room: it has a name, and its
    /// keywords, if it has any, are all texts.
    pub open spec fn complete(self) -> bool {
        &&& self.name is Some
        &&& self.keywords matches Some(words) ==> forall|i: int|
            0 <= i < words@.len() ==> (#[trigger] words@[i]) is Some
    }

    /// The keywords of a complete document.
    pub open spec fn keyword_texts(self) -> Option<Seq<Seq<char>>> {
        match self.keywords {
            Some(words) => Some(Seq::new(words@.len(), |i: int| words@[i]->0@)),
            None => None,
        }
    }

    /// Whether `room` is the room a complete document stands for: the same
    /// name, the stored hash as its password, the same description and the
    /// same keywords in the same order.
    pub open spec fn stands_for(self, room: RoomData) -> bool {
        &&& room.name == self.name->0
        &&& room.password == self.bcrypt_pass
        &&& room.description == self.description
        &&& match room.keywords {
            Some(words) => self.keyword_texts() == Some(
                Seq::new(words@.len(), |i: int| words@[i]@),
            ),
            None => self.keywords is None,
        }
    }

    /// The room the document stands for; a document that cannot be read as a
    /// room shows that the store is in an inconsistent state.
    pub fn to_room(&self) -> (room: Result<RoomData, DBError>)
        ensures
            match room {
                Ok(r) => self.complete() && self.stands_for(r),
                Err(e) => !self.complete() && e.err_type == ErrorType::InconsistentState,
            },
    {
        let name = match &self.name {
            Some(name) => name.clone(),
            None => {
                return Err(DBError { err_type: ErrorType::InconsistentState });
            },
        };
        let keywords = match &self.keywords {
            Some(words) => {
                let mut texts: Vec<String> = Vec::new();
                let mut i: usize = 0;
                while i < words.len()
                    invariant
                        i <= words@.len(),
                        self.keywords == Some(*words),
                        texts@.len() == i,
                        forall|j: int|
                            0 <= j < i ==> (#[trigger] words@[j]) is Some && texts@[j]@
                                == words@[j]->0@,
                    decreases words@.len() - i,
                {
                    match &words[i] {
                        Some(word) => texts.push(word.clone()),
                        None => {
                            assert(words@[i as int] is None);
                            return Err(DBError { err_type: ErrorType::InconsistentState });
                        },
                    }
                    i += 1;
                }
                proof {
                    assert(Seq::new(words@.len(), |i: int| words@[i]->0@) =~= Seq::new(
                        texts@.len(),
                        |i: int| texts@[i]@,
                    ));
                }
                Some(texts)
            },
            None => None,
        };
        let password = match &self.bcrypt_pass {
            Some(p) => Some(p.clone()),
            None => None,
        };
        let description = match &self.description {
            Some(d) => Some(d.clone()),
            None => None,
        };
        Ok(RoomData { name, password, keywords, description })
    }
}

/// What is wrong with a row the cursor produced: `None` for a row that is a
/// readable room. A row the cursor failed on is `None` as a row.
pub open spec fn row_fault(row: Option<RoomDocument>) -> Option<ErrorType> {
    match row {
        None => Some(ErrorType::Other),
        Some(document) => if document.complete() {
            None
        } else {
            Some(ErrorType::InconsistentState)
        },
    }
}

/// Turns the rows of a cursor, in the cursor's order, into rooms. The first
/// row that is at fault decides the error; without one, every row gives its
/// room, in the same order.
pub fn collect_rooms(rows: &Vec<Option<RoomDocument>>) -> (found: Result<Vec<RoomData>, DBError>)
    ensures
        match found {
            Ok(rooms) => {
                &&& rooms@.len() == rows@.len()
                &&& forall|i: int|
                    0 <= i < rows@.len() ==> row_fault(#[trigger] rows@[i]) is None
                        && rows@[i]->0.stands_for(rooms@[i])
            },
            Err(e) => exists|k: int|
                {
                    &&& 0 <= k < rows@.len()
                    &&& row_fault(#[trigger] rows@[k]) == Some(e.err_type)
                    &&& forall|j: int| 0 <= j < k ==> row_fault(#[trigger] rows@[j]) is None
                },
        },
{
    let mut rooms: Vec<RoomData> = Vec::new();
    let mut i: usize = 0;
    while i < rows.len()
        invariant
            i <= rows@.len(),
            rooms@.len() == i,
            forall|j: int|
                0 <= j < i ==> row_fault(#[trigger] rows@[j]) is None && rows@[j]->0.stands_for(
                    rooms@[j],
                ),
        decreases rows@.len() - i,
    {
        match &rows[i] {
            Some(document) => match document.to_room() {
                Ok(room) => rooms.push(room),
                Err(e) => {
                    assert(row_fault(rows@[i as int]) == Some(e.err_type));
                    return Err(e);
                },
            },
            None => {
                assert(row_fault(rows@[i as int]) == Some(ErrorType::Other));
                return Err(DBError { err_type: ErrorType::Other });
            },
        }
        i += 1;
    }
    Ok(rooms)
}

} // verus!
