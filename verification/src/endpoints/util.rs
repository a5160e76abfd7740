//! Waiting for, and collecting, the bytes that an agent uploads for a client request.

use vstd::prelude::*;

use crate::endpoints::websockets::{error_message, is_error_message, ErrorKind, InternalComm};
use crate::state::State;
use crate::timelocked_hashmap::without_key;

verus! {

/// What waiting (with a timeout) for the next chunk of a request gave.
#[derive(Debug, PartialEq, Eq)]
pub enum Wait<T> {
    /// A chunk arrived
    Data(T),
    /// The uploader's stream reported an error
    ChunkError,
    /// Every sender of the request is gone: nobody will upload
    Closed,
    /// Nothing arrived in time
    TimedOut,
}

/// The outcome of waiting for the first bytes of a request: the bytes, or the http status to
/// answer the client with. When nobody will upload (every sender is gone) or nothing arrived in
/// time, the file is not there to be had: `404`. An error from the uploader's stream gives `408`.
pub fn wait_result<T>(w: Wait<T>) -> (r: Result<T, u16>)
    ensures
        match w {
            Wait::Data(b) => r == Ok::<T, u16>(b),
            Wait::Closed => r == Err::<T, u16>(404),
            Wait::TimedOut => r == Err::<T, u16>(404),
            Wait::ChunkError => r == Err::<T, u16>(408),
        },
{
    match w {
        Wait::Data(b) => Ok(b),
        Wait::Closed => Err(404),
        Wait::TimedOut => Err(404),
        Wait::ChunkError => Err(408),
    }
}

/// The reason sent to an agent whose upload did not start in time.
pub open spec fn upload_timeout_text() -> Seq<char> {
    "failed to upload in time"@
}

/// The reason sent to an agent whose upload exceeded the limit.
pub open spec fn too_large_text() -> Seq<char> {
    "file too large"@
}

/// A request whose upload did not start in time is given up: it is taken out of the state, and
/// the agent is told that its upload failed. Returns whether the request was still there (it
/// may have been swept away already) and the message for the agent.
pub fn abandon_request<S, R>(state: &mut State<S, R>, request_id: u64) -> (r: (bool, InternalComm))
    requires
        old(state).wf(),
    ensures
        final(state).wf(),
        final(state).servers == old(state).servers,
        final(state).unauthenticated_servers == old(state).unauthenticated_servers,
        final(state).base_url == old(state).base_url,
        final(state).start_time == old(state).start_time,
        final(state).requests.value_map() == old(state).requests.value_map().remove(request_id),
        final(state).requests.entries() == without_key(old(state).requests.entries(), request_id),
        r.0 == old(state).requests.value_map().contains_key(request_id),
        r.1 matches InternalComm::SendMessage(m) && is_error_message(
            m,
            ErrorKind::FailedFileUpload,
            upload_timeout_text(),
        ),
{
    let was_there = match state.take_request(&request_id) {
        Some(_) => true,
        None => false,
    };
    (
        was_there,
        InternalComm::SendMessage(
            error_message(ErrorKind::FailedFileUpload, "failed to upload in time"),
        ),
    )
}

/// What to do after one more chunk of an upload.
#[derive(Debug, PartialEq, Eq)]
pub enum ChunkOutcome {
    /// Keep collecting
    Continue,
    /// The bytes exceed the limit: send `message` to the agent, answer the client `413`
    TooLarge { message: InternalComm },
    /// The uploader's stream failed: answer the client `500`
    Failed,
}

/// Collects the bytes an agent uploads for a request, up to an optional limit. The first chunk
/// is taken as it is; the limit is checked as each further chunk arrives.
#[derive(Debug)]
pub struct ByteCollector {
    bytes: Vec<u8>,
    limit: Option<usize>,
}

impl ByteCollector {
    /// The bytes collected so far.
    pub closed spec fn collected(&self) -> Seq<u8> {
        self.bytes@
    }

    /// The limit on the number of bytes, if any.
    pub closed spec fn max_len(&self) -> Option<usize> {
        self.limit
    }

    /// Start collecting with the first chunk.
    pub fn new(first: Vec<u8>, limit: Option<usize>) -> (c: ByteCollector)
        ensures
            c.collected() == first@,
            c.max_len() == limit,
    {
        ByteCollector { bytes: first, limit }
    }

    /// One more chunk, or the error the uploader's stream gave instead. A chunk is appended;
    /// if the bytes then exceed the limit the agent is told the file is too large.
    pub fn push(&mut self, chunk: Result<Vec<u8>, ()>) -> (r: ChunkOutcome)
        ensures
            final(self).max_len() == old(self).max_len(),
            match chunk {
                Ok(b) => {
                    &&& final(self).collected() == old(self).collected() + b@
                    &&& match old(self).max_len() {
                        Some(l) if final(self).collected().len() > l => r matches ChunkOutcome::TooLarge {
                            message: InternalComm::SendMessage(m),
                        } && is_error_message(m, ErrorKind::FailedFileUpload, too_large_text()),
                        _ => r == ChunkOutcome::Continue,
                    }
                },
                Err(_) => r == ChunkOutcome::Failed && final(self).collected() == old(
                    self,
                ).collected(),
            },
    {
        match chunk {
            Ok(b) => {
                let mut b = b;
                self.bytes.append(&mut b);
                match self.limit {
                    Some(l) => {
                        if self.bytes.len() > l {
                            return ChunkOutcome::TooLarge {
                                message: InternalComm::SendMessage(
                                    error_message(ErrorKind::FailedFileUpload, "file too large"),
                                ),
                            };
                        }
                        ChunkOutcome::Continue
                    },
                    None => ChunkOutcome::Continue,
                }
            },
            Err(_) => ChunkOutcome::Failed,
        }
    }

    /// The bytes collected.
    pub fn finish(self) -> (r: Vec<u8>)
        ensures
            r@ == self.collected(),
    {
        self.bytes
    }
}

} // verus!
