//! Tokens as the MongoDB backend keeps them.

use vstd::prelude::*;

verus! {

pub const COLLECTION_NAME: &'static str = "token";

pub const TOKEN_FIELD: &'static str = "token";

pub const ROOM_NAME_FIELD: &'static str = "room_name";

pub const VALID_TILL_FIELD: &'static str = "valid_till";

/// How long a token stays valid, in minutes.
pub const TOKEN_LIFETIME_MINUTES: i64 = 1;

/// The lifetime of a token in milliseconds.
pub open spec fn lifetime_millis() -> int {
    TOKEN_LIFETIME_MINUTES * 60_000
}

/// Until when a token issued at `now` is valid, both in milliseconds since
/// the epoch. `None` where that moment cannot be written.
pub fn valid_till(now: i64) -> (till: Option<i64>)
    ensures
        match till {
            Some(t) => t == now + lifetime_millis(),
            None => now + lifetime_millis() > i64::MAX,
        },
{
    now.checked_add(TOKEN_LIFETIME_MINUTES * 60_000)
}

/// Whether a deletion that removed `deleted_count` tokens missed its token:
/// exactly one token should have gone.
pub fn deletion_missed(deleted_count: u64) -> (missed: bool)
    ensures
        missed == (deleted_count != 1),
{
    deleted_count != 1
}

} // verus!
