//! Handles downloading of files and their metadata from agents, through the central api.

use vstd::prelude::*;

use crate::config::{lemma_decimal_round_trip, parse_unsigned};
use crate::endpoints::websockets::AgentMessage;
use crate::state::State;
use crate::text::{decimal, push_decimal};
use crate::timelocked_hashmap::without_key;

verus! {

/// The text answered (with `404`) when the agent asked for is not connected.
pub open spec fn not_connected_text() -> Seq<char> {
    "requested resource not found, the server may not be connected"@
}

/// The text answered (with `404`) when the agent asked for is not connected.
pub fn not_connected_body() -> (r: &'static str)
    ensures
        r@ == not_connected_text(),
{
    "requested resource not found, the server may not be connected"
}

/// The upload url names its request: it starts with the server's base url, goes on with
/// `/upload/`, and what follows reads back as the request id.
pub proof fn lemma_upload_url_names_request(base_url: Seq<char>, id: u64)
    ensures
        ({
            let t = upload_url_text(base_url, id as nat);
            &&& t.subrange(0, base_url.len() as int) == base_url
            &&& t.subrange(base_url.len() as int, (base_url.len() + 8) as int) == "/upload/"@
            &&& parse_unsigned(t.subrange((base_url.len() + 8) as int, t.len() as int), u64::MAX as nat)
                == Some(id as nat)
        }),
{
    let t = upload_url_text(base_url, id as nat);
    reveal_strlit("/upload/");
    assert(t.subrange(0, base_url.len() as int) =~= base_url);
    assert(t.subrange(base_url.len() as int, (base_url.len() + 8) as int) =~= "/upload/"@);
    assert(t.subrange((base_url.len() + 8) as int, t.len() as int) =~= decimal(id as nat));
    lemma_decimal_round_trip(id as nat, u64::MAX as nat);
}

/// The url at which an agent uploads the data for request `id`.
pub open spec fn upload_url_text(base_url: Seq<char>, id: nat) -> Seq<char> {
    base_url + "/upload/"@ + decimal(id)
}

/// The url at which an agent uploads the data for request `id`.
pub fn upload_url(base_url: &str, id: u64) -> (r: String)
    ensures
        r@ == upload_url_text(base_url@, id as nat),
{
    let mut s = String::from_str(base_url);
    s.append("/upload/");
    push_decimal(&mut s, id);
    s
}

/// Open a request for the metadata of file `file_id` on agent `server_id`, with `tx` the
/// channel on which the metadata will arrive, at time `now`. `None` when the agent is not
/// connected (the state is unchanged); otherwise the request id and the message to send to the
/// agent.
pub fn begin_metadata_request<S, R>(
    state: &mut State<S, R>,
    server_id: u64,
    file_id: u32,
    tx: R,
    now: u64,
) -> (r: Option<(u64, AgentMessage)>)
    requires
        old(state).wf(),
    ensures
        final(state).wf(),
        final(state).servers == old(state).servers,
        final(state).unauthenticated_servers == old(state).unauthenticated_servers,
        final(state).base_url == old(state).base_url,
        final(state).start_time == old(state).start_time,
        r is None <==> !old(state).servers@.contains_key(server_id),
        r is None ==> final(state).requests == old(state).requests,
        match r {
            Some((id, m)) => {
                &&& m == AgentMessage::MetadataReq { file_id, upload_id: id }
                &&& final(state).requests.value_map() == old(state).requests.value_map().insert(id, tx)
                &&& final(state).requests.entries() == without_key(old(state).requests.entries(), id).push(
                    (id, final(state).requests.clock()),
                )
                &&& final(state).requests.clock() == (if now > old(state).requests.clock() {
                    now
                } else {
                    old(state).requests.clock()
                })
            },
            None => true,
        },
{
    match state.open_request(server_id, tx, now) {
        Some(id) => Some((id, AgentMessage::MetadataReq { file_id, upload_id: id })),
        None => None,
    }
}

/// Open a request for the contents of file `file_id` on agent `server_id`, with `tx` the
/// channel on which the contents will arrive, at time `now`. `None` when the agent is not
/// connected (the state is unchanged); otherwise the request id and the message that asks the
/// agent to upload the file to `upload_url(base_url, id)`.
pub fn begin_file_request<S, R>(
    state: &mut State<S, R>,
    server_id: u64,
    file_id: u32,
    tx: R,
    now: u64,
) -> (r: Option<(u64, AgentMessage)>)
    requires
        old(state).wf(),
    ensures
        final(state).wf(),
        final(state).servers == old(state).servers,
        final(state).unauthenticated_servers == old(state).unauthenticated_servers,
        final(state).base_url == old(state).base_url,
        final(state).start_time == old(state).start_time,
        r is None <==> !old(state).servers@.contains_key(server_id),
        r is None ==> final(state).requests == old(state).requests,
        match r {
            Some((id, m)) => {
                &&& m matches AgentMessage::UploadTo { file_id: f, upload_url } && f == file_id
                    && upload_url@ == upload_url_text(old(state).base_url@, id as nat)
                &&& final(state).requests.value_map() == old(state).requests.value_map().insert(id, tx)
                &&& final(state).requests.entries() == without_key(old(state).requests.entries(), id).push(
                    (id, final(state).requests.clock()),
                )
                &&& final(state).requests.clock() == (if now > old(state).requests.clock() {
                    now
                } else {
                    old(state).requests.clock()
                })
            },
            None => true,
        },
{
    match state.open_request(server_id, tx, now) {
        Some(id) => {
            let url = upload_url(state.base_url.as_str(), id);
            Some((id, AgentMessage::UploadTo { file_id, upload_url: url }))
        },
        None => None,
    }
}

} // verus!
