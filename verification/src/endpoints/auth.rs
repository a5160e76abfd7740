//! Handles authentication and registration of agents to the api.
//!
//! Registration talks to the database between its steps, so it is a small state machine:
//! each step takes what the database answered and says what to do next.

use vstd::prelude::*;

use crate::common::{is_alphanumeric, random_alphanumeric, random_u64};
use crate::config::{lemma_decimal_round_trip, parse_unsigned};
use crate::db::DbBackendError;
use crate::text::{ascii_chars, ascii_to_string, decimal, push_decimal};

verus! {

/// The `Authorization` header of a registration request.
#[derive(Debug, PartialEq, Eq)]
pub enum AuthHeader {
    /// There is no such header
    Missing,
    /// The header is not visible ASCII text
    NotText,
    /// The header's text
    Text(String),
}

/// The answer to a registration request.
#[derive(Debug, PartialEq, Eq)]
pub enum RegisterReply {
    /// `400`: the authorization header is not text
    BadRequest,
    /// `401`: a password is configured and was not given
    Unauthorized,
    /// `500`: the database failed, or the new id was taken meanwhile
    InternalServerError,
    /// `201`, with this JSON body holding the new public id and passcode
    Created(String),
}

impl RegisterReply {
    /// The http status code of the answer.
    pub fn status(&self) -> (r: u16)
        ensures
            r == match *self {
                RegisterReply::BadRequest => 400u16,
                RegisterReply::Unauthorized => 401u16,
                RegisterReply::InternalServerError => 500u16,
                RegisterReply::Created(_) => 201u16,
            },
    {
        match self {
            RegisterReply::BadRequest => 400,
            RegisterReply::Unauthorized => 401,
            RegisterReply::InternalServerError => 500,
            RegisterReply::Created(_) => 201,
        }
    }
}

/// What a registration does next.
#[derive(Debug, PartialEq, Eq)]
pub enum RegisterAction {
    /// Ask the database whether an agent with this id exists
    CheckId(u64),
    /// Save this passcode for this id in the database
    Save(u64, Vec<u8>),
    /// The id turned out to be taken: save its previous passcode back
    Restore(u64, Vec<u8>),
    /// Answer the request
    Reply(RegisterReply),
}

/// The length of the passcode handed to a new agent.
pub const PASSCODE_LEN: usize = 32;

/// The authorization a registration needs: with a password configured, the header must be
/// exactly `Basic <password>`.
pub open spec fn authorization_ok(password: Option<Seq<char>>, header: AuthHeader) -> Option<RegisterReply> {
    match password {
        None => None,
        Some(p) => match header {
            AuthHeader::Missing => Some(RegisterReply::Unauthorized),
            AuthHeader::NotText => Some(RegisterReply::BadRequest),
            AuthHeader::Text(h) => if h@ == "Basic "@ + p {
                None
            } else {
                Some(RegisterReply::Unauthorized)
            },
        },
    }
}

/// The body answered to a new agent: its public id and passcode as JSON.
pub open spec fn registration_text(id: nat, passcode: Seq<u8>) -> Seq<char> {
    "{\"public_id\":"@ + decimal(id) + ",\"passcode\":\""@ + ascii_chars(passcode) + "\"}"@
}

/// The registration body hands the agent exactly its id and passcode: after `{"public_id":`
/// comes text that reads back as the id, then `,"passcode":"`, then one character per byte of
/// the passcode with that byte's code, then `"}`.
pub proof fn lemma_registration_names_id_and_passcode(id: u64, passcode: Seq<u8>)
    ensures
        ({
            let t = registration_text(id as nat, passcode);
            let n = decimal(id as nat).len() as int;
            &&& t.len() == 13 + n + 13 + passcode.len() + 2
            &&& t.subrange(0, 13) == "{\"public_id\":"@
            &&& parse_unsigned(t.subrange(13, 13 + n), u64::MAX as nat) == Some(id as nat)
            &&& t.subrange(13 + n, 26 + n) == ",\"passcode\":\""@
            &&& forall|i: int| 0 <= i < passcode.len() ==> (#[trigger] t[26 + n + i]) as u32 == passcode[i]
            &&& t.subrange(t.len() - 2, t.len() as int) == "\"}"@
        }),
{
    reveal_strlit("{\"public_id\":");
    reveal_strlit(",\"passcode\":\"");
    reveal_strlit("\"}");
    let t = registration_text(id as nat, passcode);
    let n = decimal(id as nat).len() as int;
    assert(t.subrange(0, 13) =~= "{\"public_id\":"@);
    assert(t.subrange(13, 13 + n) =~= decimal(id as nat));
    lemma_decimal_round_trip(id as nat, u64::MAX as nat);
    assert(t.subrange(13 + n, 26 + n) =~= ",\"passcode\":\""@);
    assert forall|i: int| 0 <= i < passcode.len() implies (#[trigger] t[26 + n + i]) as u32
        == passcode[i] by {
        assert(t[26 + n + i] == ascii_chars(passcode)[i]);
        let b = passcode[i];
        assert((b as char) as u32 == b);
    }
    assert(t.subrange(t.len() - 2, t.len() as int) =~= "\"}"@);
}

/// Check the authorization of a registration request: `None` when it may go on, otherwise the
/// answer that refuses it.
pub fn authorize(password: Option<&str>, header: &AuthHeader) -> (r: Option<RegisterReply>)
    ensures
        r == authorization_ok(
            match password {
                Some(p) => Some(p@),
                None => None,
            },
            *header,
        ),
{
    match password {
        None => None,
        Some(p) => match header {
            AuthHeader::Missing => Some(RegisterReply::Unauthorized),
            AuthHeader::NotText => Some(RegisterReply::BadRequest),
            AuthHeader::Text(h) => {
                let mut expected = String::from_str("Basic ");
                expected.append(p);
                if *h == expected {
                    None
                } else {
                    Some(RegisterReply::Unauthorized)
                }
            },
        },
    }
}

/// The body answered to a new agent: its public id and passcode as JSON.
pub fn registration_body(id: u64, passcode: &[u8]) -> (r: String)
    ensures
        r@ == registration_text(id as nat, passcode@),
{
    let mut s = String::from_str("{\"public_id\":");
    push_decimal(&mut s, id);
    s.append(",\"passcode\":\"");
    let p = ascii_to_string(passcode);
    s.append(p.as_str());
    s.append("\"}");
    s
}

/// Start a registration: when the request is authorized, draw a random id and check it with the
/// database; otherwise refuse.
pub fn register_begin(password: Option<&str>, header: &AuthHeader) -> (a: RegisterAction)
    ensures
        match authorization_ok(
            match password {
                Some(p) => Some(p@),
                None => None,
            },
            *header,
        ) {
            Some(reply) => a == RegisterAction::Reply(reply),
            None => a is CheckId,
        },
{
    match authorize(password, header) {
        Some(reply) => RegisterAction::Reply(reply),
        None => RegisterAction::CheckId(random_u64()),
    }
}

/// The database answered whether `id` exists: if it does, draw another id; if it does not,
/// draw a passcode of `PASSCODE_LEN` ASCII letters and digits and save it for `id`; if the
/// database failed, answer `500`.
pub fn register_on_check(id: u64, found: Result<bool, DbBackendError>) -> (a: RegisterAction)
    ensures
        match found {
            Ok(true) => a is CheckId,
            Ok(false) => a matches RegisterAction::Save(i, p) && i == id && p.len() == PASSCODE_LEN
                && forall|k: int| 0 <= k < p.len() ==> is_alphanumeric(#[trigger] p@[k]),
            Err(_) => a == RegisterAction::Reply(RegisterReply::InternalServerError),
        },
{
    match found {
        Ok(true) => RegisterAction::CheckId(random_u64()),
        Ok(false) => RegisterAction::Save(id, random_alphanumeric(PASSCODE_LEN)),
        Err(_) => RegisterAction::Reply(RegisterReply::InternalServerError),
    }
}

/// The database saved `passcode` for `id` and answered with the passcode stored before. With
/// none before, the agent is registered: answer `201` with its id and passcode. If there was
/// one, the id was taken meanwhile: save the previous passcode back. If the database failed,
/// answer `500`.
pub fn register_on_save(
    id: u64,
    passcode: &[u8],
    previous: Result<Option<Vec<u8>>, DbBackendError>,
) -> (a: RegisterAction)
    ensures
        match previous {
            Ok(None) => a matches RegisterAction::Reply(RegisterReply::Created(body))
                && body@ == registration_text(id as nat, passcode@),
            Ok(Some(prev)) => a == RegisterAction::Restore(id, prev),
            Err(_) => a == RegisterAction::Reply(RegisterReply::InternalServerError),
        },
{
    match previous {
        Ok(None) => RegisterAction::Reply(RegisterReply::Created(registration_body(id, passcode))),
        Ok(Some(prev)) => RegisterAction::Restore(id, prev),
        Err(_) => RegisterAction::Reply(RegisterReply::InternalServerError),
    }
}

/// The previous passcode was saved back (or saving it failed): either way the registration
/// fails with `500`.
pub fn register_on_restore(restored: Result<Option<Vec<u8>>, DbBackendError>) -> (r: RegisterReply)
    ensures
        r == RegisterReply::InternalServerError,
{
    RegisterReply::InternalServerError
}

} // verus!
