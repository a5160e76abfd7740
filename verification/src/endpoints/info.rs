//! Handles the information/data acquisition side of the API.

use vstd::prelude::*;
use vstd::utf8::{decode_utf8, valid_utf8};

use crate::endpoints::websockets::AgentMessage;
use crate::state::State;
use crate::timelocked_hashmap::without_key;

verus! {

/// The most bytes an agent may send in answer to a status request.
pub const STATUS_PAYLOAD_LIMIT: usize = 2_000_000;

/// The message of the information answer about the api itself.
pub open spec fn ready_text() -> Seq<char> {
    "ready"@
}

/// The message answered (with `404`) when the agent asked about is not connected.
pub open spec fn agent_not_found_text() -> Seq<char> {
    "agent not found, or not authenticated"@
}

/// The message answered (with `500`) when an agent's status is not valid UTF-8.
pub open spec fn not_text_payload_text() -> Seq<char> {
    "failed to convert payload to string"@
}

/// The message of the information answer about the api itself.
pub fn ready_message() -> (r: &'static str)
    ensures
        r@ == ready_text(),
{
    "ready"
}

/// The message answered (with `404`) when the agent asked about is not connected.
pub fn agent_not_found_message() -> (r: &'static str)
    ensures
        r@ == agent_not_found_text(),
{
    "agent not found, or not authenticated"
}

/// The message answered (with `500`) when an agent's status is not valid UTF-8.
pub fn not_text_payload_message() -> (r: &'static str)
    ensures
        r@ == not_text_payload_text(),
{
    "failed to convert payload to string"
}

/// `String::from_utf8`: the text encoded by `bytes`, or `None` when they are not valid UTF-8.
#[verifier::external_body]
fn utf8_string(bytes: Vec<u8>) -> (r: Option<String>)
    ensures
        r is Some <==> valid_utf8(bytes@),
        match r {
            Some(s) => s@ == decode_utf8(bytes@),
            None => true,
        },
{
    String::from_utf8(bytes).ok()
}

/// The status an agent sent, as text; `None` when it is not valid UTF-8.
pub fn status_payload_text(payload: Vec<u8>) -> (r: Option<String>)
    ensures
        r is Some <==> valid_utf8(payload@),
        match r {
            Some(s) => s@ == decode_utf8(payload@),
            None => true,
        },
{
    utf8_string(payload)
}

/// Open a request for the status of agent `agent_id`, with `tx` the channel on which the
/// status will arrive, at time `now`. `None` when the agent is not connected (the state is
/// unchanged); otherwise the request id and the message to send to the agent.
pub fn begin_status_request<S, R>(state: &mut State<S, R>, agent_id: u64, tx: R, now: u64) -> (r:
    Option<(u64, AgentMessage)>)
    requires
        old(state).wf(),
    ensures
        final(state).wf(),
        final(state).servers == old(state).servers,
        final(state).unauthenticated_servers == old(state).unauthenticated_servers,
        final(state).base_url == old(state).base_url,
        final(state).start_time == old(state).start_time,
        r is None <==> !old(state).servers@.contains_key(agent_id),
        r is None ==> final(state).requests == old(state).requests,
        match r {
            Some((id, m)) => {
                &&& m == AgentMessage::StatusReq { public_id: agent_id, upload_id: id }
                &&& final(state).requests.value_map() == old(state).requests.value_map().insert(id, tx)
                &&& final(state).requests.entries() == without_key(old(state).requests.entries(), id).push(
                    (id, final(state).requests.clock()),
                )
                &&& final(state).requests.clock() == (if now > old(state).requests.clock() {
                    now
                } else {
                    old(state).requests.clock()
                })
            },
            None => true,
        },
{
    match state.open_request(agent_id, tx, now) {
        Some(id) => Some((id, AgentMessage::StatusReq { public_id: agent_id, upload_id: id })),
        None => None,
    }
}

} // verus!
