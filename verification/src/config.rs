//! The settings the process starts from, and what the services make of them.

use vstd::prelude::*;
use crate::http_server::Params;
use crate::repository::DBParams;
use crate::text::{byte_of_text, parse_u8, slices_text, split, split_text};

verus! {

/// Everything the process is configured with.
#[derive(Debug, PartialEq, Eq)]
pub struct Config {
    pub db: DBConfig,
    pub http: Http,
    pub ws_url: String,
}

/// The database section.
#[derive(Debug, PartialEq, Eq)]
pub struct DBConfig {
    pub host: String,
    pub port: String,
    pub database: String,
    pub user: String,
    pub password: String,
}

impl Clone for DBConfig {
    fn clone(&self) -> (copy: Self)
        ensures
            copy == *self,
    {
        DBConfig {
            host: self.host.clone(),
            port: self.port.clone(),
            database: self.database.clone(),
            user: self.user.clone(),
            password: self.password.clone(),
        }
    }
}

impl DBConfig {
    /// The database section as the repository takes it.
    pub fn into(self) -> (params: DBParams)
        ensures
            params.user_name == self.user,
            params.password == self.password,
            params.database == self.database,
            params.host == self.host,
            params.port == self.port,
    {
        DBParams {
            user_name: self.user,
            password: self.password,
            database: self.database,
            host: self.host,
            port: self.port,
        }
    }
}

/// The section of the administrative HTTP service.
#[derive(Debug, PartialEq, Eq)]
pub struct Http {
    pub ip: String,
    pub port: u16,
}

/// The four bytes of an address written as `a.b.c.d`: the text is split at
/// each dot, every piece has to be a byte in decimal, and the first four
/// pieces are the address. A text with fewer than four pieces, or with a
/// piece that is no byte, is no address.
pub open spec fn address_of_text(ip: Seq<char>) -> Option<Seq<u8>> {
    let pieces = split_text(ip, '.');
    if pieces.len() >= 4 && forall|i: int|
        0 <= i < pieces.len() ==> byte_of_text(#[trigger] pieces[i]) is Some {
        Some(
            seq![
                byte_of_text(pieces[0])->0,
                byte_of_text(pieces[1])->0,
                byte_of_text(pieces[2])->0,
                byte_of_text(pieces[3])->0,
            ],
        )
    } else {
        None
    }
}

/// Reads an address written as `a.b.c.d`.
pub fn parse_address(ip: &str) -> (address: Option<[u8; 4]>)
    ensures
        match address {
            Some(bytes) => address_of_text(ip@) == Some(bytes@),
            None => address_of_text(ip@) is None,
        },
{
    let pieces = split(ip, '.');
    let ghost texts = split_text(ip@, '.');
    let mut octets: Vec<u8> = Vec::new();
    let mut i: usize = 0;
    while i < pieces.len()
        invariant
            i <= pieces.len(),
            slices_text(pieces@) == texts,
            texts == split_text(ip@, '.'),
            octets@.len() == i,
            forall|j: int| 0 <= j < i ==> byte_of_text(#[trigger] texts[j]) == Some(octets@[j]),
        decreases pieces.len() - i,
    {
        assert(texts[i as int] == pieces@[i as int]@);
        match parse_u8(pieces[i]) {
            Some(octet) => octets.push(octet),
            None => {
                assert(byte_of_text(texts[i as int]) is None);
                return None;
            },
        }
        i += 1;
    }
    if octets.len() < 4 {
        return None;
    }
    let bytes = [octets[0], octets[1], octets[2], octets[3]];
    assert(bytes@ =~= seq![octets@[0], octets@[1], octets@[2], octets@[3]]);
    Some(bytes)
}

impl Http {
    /// Whether the address of this section can be read.
    pub open spec fn well_formed(&self) -> bool {
        address_of_text(self.ip@) is Some
    }

    /// The section as the HTTP service takes it. The address has to be
    /// readable: [`parse_address`] tells.
    pub fn into(self) -> (params: Params)
        requires
            self.well_formed(),
        ensures
            Some(params.ip_address@) == address_of_text(self.ip@),
            params.port == self.port,
    {
        match parse_address(self.ip.as_str()) {
            Some(ip_address) => Params { ip_address, port: self.port },
            None => unreached(),
        }
    }
}

} // verus!
