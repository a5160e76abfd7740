//! Agent records as requested from, and kept by, an agent store: public id, hashed secure key
//! and sign-in times (seconds since the unix epoch).

use vstd::prelude::*;

use crate::common::{get_random_hex, hash, is_alphanumeric_char, sha256};
use crate::text::hex_lower;
use vstd::utf8::encode_utf8;

verus! {

/// A valid server agent, and all relevant details thereof.
#[derive(Debug, Clone)]
pub struct Agent {
    public_id: String,
    created_at: i64,
    last_signin: i64,
    secure_key_hashed: String,
}

impl Agent {
    /// An agent record.
    pub fn new(public_id: String, created_at: i64, last_signin: i64, secure_key_hashed: String) -> (a: Agent)
        ensures
            a.public_id_view() == public_id@,
            a.secure_key_hashed_view() == secure_key_hashed@,
            a.created_at() == created_at,
            a.last_signin() == last_signin,
    {
        Agent { public_id, created_at, last_signin, secure_key_hashed }
    }

    /// The agent's public id.
    pub closed spec fn public_id_view(&self) -> Seq<char> {
        self.public_id@
    }

    /// The agent's hashed secure key.
    pub closed spec fn secure_key_hashed_view(&self) -> Seq<char> {
        self.secure_key_hashed@
    }

    /// When the agent was created.
    pub closed spec fn created_at(&self) -> i64 {
        self.created_at
    }

    /// When the agent last signed in.
    pub closed spec fn last_signin(&self) -> i64 {
        self.last_signin
    }

    /// The agent's public id.
    pub fn public_id(&self) -> (r: &str)
        ensures
            r@ == self.public_id_view(),
    {
        self.public_id.as_str()
    }

    /// Whether `key` is the agent's secure key: its lowercase hexadecimal SHA-256 digest is the
    /// hashed key kept for the agent.
    pub fn secure_key_matches(&self, key: &str) -> (r: bool)
        ensures
            r == (hex_lower(sha256(encode_utf8(key@))) == self.secure_key_hashed_view()),
    {
        let h = hash(key);
        h == self.secure_key_hashed
    }

    /// The agent's hashed secure key.
    pub fn secure_key_hashed(&self) -> (r: &str)
        ensures
            r@ == self.secure_key_hashed_view(),
    {
        self.secure_key_hashed.as_str()
    }
}

/// An agent request, used to create a new agent.
#[derive(Debug)]
pub struct AgentRequest {
    secure_key: String,
    public_id: String,
}

impl AgentRequest {
    /// The plain secure key of the request.
    pub closed spec fn secure_key_view(&self) -> Seq<char> {
        self.secure_key@
    }

    /// The UTF-8 bytes of the plain secure key.
    pub closed spec fn secure_key_bytes(&self) -> Seq<u8> {
        encode_utf8(self.secure_key@)
    }

    /// The public id of the request.
    pub closed spec fn public_id_view(&self) -> Seq<char> {
        self.public_id@
    }

    /// A request for a new agent with a random public id of 6 characters and a random secure
    /// key of 32 characters, all ASCII letters and digits.
    pub fn generate() -> (r: AgentRequest)
        ensures
            r.public_id_view().len() == 6,
            r.secure_key_view().len() == 32,
            forall|i: int| 0 <= i < 6 ==> is_alphanumeric_char(#[trigger] r.public_id_view()[i]),
            forall|i: int| 0 <= i < 32 ==> is_alphanumeric_char(#[trigger] r.secure_key_view()[i]),
    {
        let public_id = get_random_hex(6);
        let secure_key = get_random_hex(32);
        AgentRequest { secure_key, public_id }
    }

    /// The plain secure key.
    pub fn secure_key_plain(&self) -> (r: &str)
        ensures
            r@ == self.secure_key_view(),
    {
        self.secure_key.as_str()
    }

    /// The secure key as stored: its lowercase hexadecimal SHA-256 digest.
    pub fn secure_key_hashed(&self) -> (r: String)
        ensures
            r@ == hex_lower(sha256(self.secure_key_bytes())),
    {
        hash(self.secure_key.as_str())
    }

    /// The public id.
    pub fn public_id(&self) -> (r: &str)
        ensures
            r@ == self.public_id_view(),
    {
        self.public_id.as_str()
    }
}

impl Default for AgentRequest {
    /// Same as `generate`.
    fn default() -> (r: AgentRequest)
        ensures
            r.public_id_view().len() == 6,
            r.secure_key_view().len() == 32,
            forall|i: int| 0 <= i < 6 ==> is_alphanumeric_char(#[trigger] r.public_id_view()[i]),
            forall|i: int| 0 <= i < 32 ==> is_alphanumeric_char(#[trigger] r.secure_key_view()[i]),
    {
        AgentRequest::generate()
    }
}

/// A request to the agent store, for updating purposes only.
#[derive(Debug, Clone, Copy)]
pub struct AgentUpdateRequest {
    last_signin: i64,
}

impl AgentUpdateRequest {
    /// The sign-in time the update records.
    pub closed spec fn signin(&self) -> i64 {
        self.last_signin
    }

    /// An update that sets the last sign-in time.
    pub fn new(last_signin: i64) -> (r: Self)
        ensures
            r.signin() == last_signin,
    {
        AgentUpdateRequest { last_signin }
    }

    /// The last sign-in time to record.
    pub fn last_signin(&self) -> (r: i64)
        ensures
            r == self.signin(),
    {
        self.last_signin
    }
}

} // verus!
