//! Models that can be used throughout the application for inserting into the database, or for
//! use in the API as request/response types.

use vstd::prelude::*;

use crate::common::sha256;
use crate::db::{db_public_id, hash_passcode, key_validates};

verus! {

/// A model representing a `NewAgent` to be inserted into the database
#[derive(Debug)]
pub struct NewAgent {
    /// The public ID representing this agent
    pub public_id: i64,
    /// The hashed secure key that this agent must login with
    pub secure_key: Vec<u8>,
    /// When this user was last seen
    pub last_seen: i64,
}

/// A model representing an `Agent` from the database
#[derive(Debug)]
pub struct Agent {
    /// The ID of this agent in the database
    pub id: i32,
    /// The public ID representing this agent
    pub public_id: i64,
    /// The hashed secure key that this agent must login with
    pub secure_key: Vec<u8>,
    /// When this user was last seen
    pub last_seen: i64,
}

impl NewAgent {
    /// The row saved for agent `server_id` with `passcode`, seen at `now_secs` (seconds since the
    /// unix epoch): the passcode is stored hashed.
    pub fn from_registration(server_id: u64, passcode: &[u8], now_secs: i64) -> (a: NewAgent)
        ensures
            a.public_id == server_id as i64,
            a.secure_key@ == sha256(passcode@),
            a.last_seen == now_secs,
    {
        NewAgent {
            public_id: db_public_id(server_id),
            secure_key: hash_passcode(passcode),
            last_seen: now_secs,
        }
    }
}

/// A passcode validates against the row stored for it at registration: that row keeps the
/// passcode's digest, which is what validation compares with.
pub proof fn lemma_registered_row_validates(row: NewAgent, passcode: Seq<u8>)
    requires
        row.secure_key@ == sha256(passcode),
    ensures
        key_validates(seq![row.secure_key@], passcode),
{
}

} // verus!
