//! Handles agents uploading a file, or metadata, to a waiting client.

use vstd::prelude::*;

use crate::state::State;
use crate::timelocked_hashmap::without_key;

verus! {

/// An agent starts uploading for request `upload_id`: the request is taken out of the state
/// (an upload is accepted once) and its channel returned; `404` when no such request waits.
pub fn begin_upload<S, R>(state: &mut State<S, R>, upload_id: u64) -> (r: Result<R, u16>)
    requires
        old(state).wf(),
    ensures
        final(state).wf(),
        final(state).servers == old(state).servers,
        final(state).unauthenticated_servers == old(state).unauthenticated_servers,
        final(state).base_url == old(state).base_url,
        final(state).start_time == old(state).start_time,
        final(state).requests.value_map() == old(state).requests.value_map().remove(upload_id),
        final(state).requests.entries() == without_key(old(state).requests.entries(), upload_id),
        match r {
            Ok(tx) => old(state).requests.value_map().contains_key(upload_id) && tx == old(
                state,
            ).requests.value_map()[upload_id],
            Err(code) => code == 404 && !old(state).requests.value_map().contains_key(upload_id),
        },
{
    match state.take_request(&upload_id) {
        Some(tx) => Ok(tx),
        None => Err(404),
    }
}

/// The answer to an agent's upload: `200` with `successfully uploaded` when every chunk reached
/// the waiting client, `500` with `upload failed` when forwarding a chunk failed.
pub fn upload_reply(all_forwarded: bool) -> (r: (u16, &'static str))
    ensures
        all_forwarded ==> r.0 == 200 && r.1@ == "successfully uploaded"@,
        !all_forwarded ==> r.0 == 500 && r.1@ == "upload failed"@,
{
    if all_forwarded {
        (200, "successfully uploaded")
    } else {
        (500, "upload failed")
    }
}

} // verus!
