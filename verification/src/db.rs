//! The database side of the api: its errors, the hashing and checking of agent passcodes, and an
//! in-memory agent store for development and testing.

use std::collections::HashMap;
use vstd::prelude::*;

use crate::common::{sha256, sha256_digest};

verus! {

broadcast use vstd::std_specs::hash::group_hash_axioms;

/// Represents an error generated by the database for the central api.
#[derive(Debug, Clone, PartialEq, Eq)]
pub enum DbBackendError {
    /// The item that was attempted to insert already exists.
    AlreadyExist,
    /// There is no connection available to the database.
    NoConnectionAvailable(String),
    /// The query failed.
    QueryFailed(String),
    /// Initalisation of the database failed
    InitFailed(String),
}

/// The text shown for a database error.
pub open spec fn db_error_text(e: DbBackendError) -> Seq<char> {
    match e {
        DbBackendError::AlreadyExist => "entry already exists"@,
        DbBackendError::NoConnectionAvailable(s) => "connection is unavailable due to error: "@ + s@,
        DbBackendError::QueryFailed(s) => "query failed due to error: "@ + s@,
        DbBackendError::InitFailed(s) => "initalise database failed due to error: "@ + s@,
    }
}

impl DbBackendError {
    /// The text shown for this error.
    pub fn message(&self) -> (r: String)
        ensures
            r@ == db_error_text(*self),
    {
        match self {
            DbBackendError::AlreadyExist => String::from_str("entry already exists"),
            DbBackendError::NoConnectionAvailable(e) => {
                let mut s = String::from_str("connection is unavailable due to error: ");
                s.append(e.as_str());
                s
            },
            DbBackendError::QueryFailed(e) => {
                let mut s = String::from_str("query failed due to error: ");
                s.append(e.as_str());
                s
            },
            DbBackendError::InitFailed(e) => {
                let mut s = String::from_str("initalise database failed due to error: ");
                s.append(e.as_str());
                s
            },
        }
    }
}

/// Whether two byte strings are equal.
pub fn bytes_equal(a: &[u8], b: &[u8]) -> (r: bool)
    ensures
        r == (a@ == b@),
{
    if a.len() != b.len() {
        return false;
    }
    let mut i: usize = 0;
    while i < a.len()
        invariant
            a.len() == b.len(),
            i <= a.len(),
            forall|j: int| 0 <= j < i ==> a@[j] == b@[j],
        decreases a.len() - i,
    {
        if a[i] != b[i] {
            return false;
        }
        i = i + 1;
    }
    assert(a@ =~= b@);
    true
}

/// The key stored for a passcode: its SHA-256 digest.
pub fn hash_passcode(passcode: &[u8]) -> (r: Vec<u8>)
    ensures
        r@ == sha256(passcode@),
        r.len() == 32,
{
    sha256_digest(passcode)
}

/// Whether `passcode` matches the stored key `secure_key`, i.e. hashes to it.
pub fn secure_key_matches(secure_key: &[u8], passcode: &[u8]) -> (r: bool)
    ensures
        r == (sha256(passcode@) == secure_key@),
{
    let h = hash_passcode(passcode);
    bytes_equal(h.as_slice(), secure_key)
}

/// A passcode is valid against the keys stored for an agent id when there is a key and the
/// passcode's digest equals the first one.
pub open spec fn key_validates(keys: Seq<Seq<u8>>, passcode: Seq<u8>) -> bool {
    keys.len() > 0 && sha256(passcode) == keys[0]
}

/// Validation depends on the passcode: with no key stored nothing validates; with a key stored,
/// a passcode validates exactly when its SHA-256 digest is that key, so two passcodes that
/// both validate against the same keys have the same digest.
pub proof fn lemma_validation_needs_matching_digest(keys: Seq<Seq<u8>>, p: Seq<u8>, q: Seq<u8>)
    ensures
        keys.len() == 0 ==> !key_validates(keys, p),
        keys.len() > 0 && sha256(p) != keys[0] ==> !key_validates(keys, p),
        keys.len() > 0 && sha256(p) == keys[0] ==> key_validates(keys, p),
        key_validates(keys, p) && key_validates(keys, q) ==> sha256(p) == sha256(q),
        key_validates(keys, p) && sha256(q) != sha256(p) ==> !key_validates(keys, q),
{
}

/// Validation of a passcode against the keys stored for an agent id (at most one, as the id is
/// unique): valid exactly when there is a stored key and the passcode matches the first one.
pub fn validate_against(keys: &Vec<Vec<u8>>, passcode: &[u8]) -> (r: bool)
    ensures
        r == key_validates(keys@.map_values(|k: Vec<u8>| k@), passcode@),
        r ==> keys.len() > 0 && sha256(passcode@) == keys@[0]@,
        keys.len() > 0 && sha256(passcode@) == keys@[0]@ ==> r,
{
    if keys.len() > 0 {
        secure_key_matches(keys[0].as_slice(), passcode)
    } else {
        false
    }
}

/// The id under which an agent is stored in the database: the bits of its public id read as a
/// signed 64-bit number.
pub fn db_public_id(server_id: u64) -> (r: i64)
    ensures
        r == server_id as i64,
{
    server_id as i64
}

/// Distinct public ids are stored under distinct database ids.
pub proof fn lemma_db_public_id_injective(a: u64, b: u64)
    ensures
        (a as i64) == (b as i64) ==> a == b,
{
    assert((a as i64) == (b as i64) ==> a == b) by (bit_vector);
}

/// An entirely insecure mock implementation of a backend database for development and testing
/// purposes: it keeps each agent's passcode in memory.
#[derive(Debug)]
pub struct MockDB {
    store: HashMap<u64, Vec<u8>>,
}

impl MockDB {
    /// The passcode stored for each agent id.
    pub closed spec fn stored(&self) -> Map<u64, Seq<u8>> {
        self.store@.map_values(|v: Vec<u8>| v@)
    }

    /// Whether `passcode` is the one stored for `server_id`.
    pub open spec fn validates(&self, server_id: u64, passcode: Seq<u8>) -> bool {
        self.stored().contains_key(server_id) && self.stored()[server_id] == passcode
    }

    /// An empty store.
    pub fn new() -> (db: MockDB)
        ensures
            db.stored() == Map::<u64, Seq<u8>>::empty(),
    {
        let db = MockDB { store: HashMap::new() };
        assert(db.stored() =~= Map::<u64, Seq<u8>>::empty());
        db
    }

    /// Save `passcode` for `server_id`, returning the passcode stored before, if any.
    pub fn save_entry(&mut self, server_id: u64, passcode: Vec<u8>) -> (r: Result<
        Option<Vec<u8>>,
        DbBackendError,
    >)
        ensures
            final(self).stored() == old(self).stored().insert(server_id, passcode@),
            match r {
                Ok(Some(prev)) => old(self).stored().contains_key(server_id) && prev@ == old(
                    self,
                ).stored()[server_id],
                Ok(None) => !old(self).stored().contains_key(server_id),
                Err(_) => false,
            },
            r == Ok::<Option<Vec<u8>>, DbBackendError>(None) ==> registration_recorded(
                *old(self),
                *final(self),
                server_id,
                passcode@,
            ),
    {
        let ghost p = passcode@;
        let prev = self.store.insert(server_id, passcode);
        assert(self.stored() =~= old(self).stored().insert(server_id, p));
        Ok(prev)
    }

    /// Whether `passcode` is the one stored for `server_id`.
    pub fn validate_server(&self, server_id: &u64, passcode: &[u8]) -> (r: Result<
        bool,
        DbBackendError,
    >)
        ensures
            r == Ok::<bool, DbBackendError>(self.validates(*server_id, passcode@)),
    {
        match self.store.get(server_id) {
            Some(s) => Ok(bytes_equal(s.as_slice(), passcode)),
            None => Ok(false),
        }
    }

    /// Whether an agent with this id is stored.
    pub fn contains_entry(&self, server_id: &u64) -> (r: Result<bool, DbBackendError>)
        ensures
            r == Ok::<bool, DbBackendError>(self.stored().contains_key(*server_id)),
    {
        Ok(self.store.contains_key(server_id))
    }

    /// Recording when an agent was last seen: the mock keeps no such record.
    pub fn update_last_seen(&self, server_id: &u64) -> (r: Result<(), DbBackendError>)
        ensures
            r == Ok::<(), DbBackendError>(()),
    {
        Ok(())
    }

    /// Closing the mock store always succeeds.
    pub fn close(self) -> (r: Result<(), DbBackendError>)
        ensures
            r == Ok::<(), DbBackendError>(()),
    {
        Ok(())
    }
}

/// What the store gives back of a write: once `passcode` has been saved for `server_id`
/// (`after` is the store after `save_entry(server_id, passcode)` on `before`), that passcode
/// validates for `server_id`, and for every other id exactly the passcodes that validated
/// before still validate.
pub proof fn lemma_saved_passcode_validates(
    before: MockDB,
    after: MockDB,
    server_id: u64,
    passcode: Seq<u8>,
    other: u64,
    other_passcode: Seq<u8>,
)
    requires
        after.stored() == before.stored().insert(server_id, passcode),
    ensures
        after.validates(server_id, passcode),
        other != server_id ==> (after.validates(other, other_passcode) <==> before.validates(
            other,
            other_passcode,
        )),
{
}


/// What a registration that answered `Created` did to the store: the id was not stored before
/// (`contains_entry` answered `false`, and `save_entry` found no previous passcode) and the new
/// passcode is now stored under it, all else unchanged.
pub open spec fn registration_recorded(before: MockDB, after: MockDB, id: u64, passcode: Seq<u8>) -> bool {
    &&& !before.stored().contains_key(id)
    &&& after.stored() == before.stored().insert(id, passcode)
}

/// After the first `m` of a run of registrations, each of them is still stored as it was made.
proof fn lemma_registrations_prefix(
    stores: Seq<MockDB>,
    ids: Seq<u64>,
    passcodes: Seq<Seq<u8>>,
    m: int,
)
    requires
        stores.len() == ids.len() + 1,
        passcodes.len() == ids.len(),
        0 <= m <= ids.len(),
        forall|k: int|
            0 <= k < ids.len() ==> registration_recorded(
                #[trigger] stores[k],
                stores[k + 1],
                ids[k],
                passcodes[k],
            ),
    ensures
        forall|k: int|
            0 <= k < m ==> stores[m].stored().contains_key(#[trigger] ids[k])
                && stores[m].stored()[ids[k]] == passcodes[k],
    decreases m,
{
    if m > 0 {
        lemma_registrations_prefix(stores, ids, passcodes, m - 1);
        let prev = stores[m - 1];
        assert(registration_recorded(prev, stores[m], ids[m - 1], passcodes[m - 1]));
        assert forall|k: int| 0 <= k < m implies stores[m].stored().contains_key(#[trigger] ids[k])
            && stores[m].stored()[ids[k]] == passcodes[k] by {
            if k < m - 1 {
                assert(prev.stored().contains_key(ids[k]));
                assert(ids[k] != ids[m - 1]);
            }
        }
    }
}

/// Registering many agents one after another: every registration that answered `Created`
/// handed out an id that no other registration of the run handed out, and at the end each
/// agent's passcode still validates for its id. (`stores[k]` is the store before the `k`-th
/// registration, which recorded `passcodes[k]` under `ids[k]`.)
pub proof fn lemma_registrations_all_validate(
    stores: Seq<MockDB>,
    ids: Seq<u64>,
    passcodes: Seq<Seq<u8>>,
)
    requires
        stores.len() == ids.len() + 1,
        passcodes.len() == ids.len(),
        forall|k: int|
            0 <= k < ids.len() ==> registration_recorded(
                #[trigger] stores[k],
                stores[k + 1],
                ids[k],
                passcodes[k],
            ),
    ensures
        forall|k: int| 0 <= k < ids.len() ==> stores.last().validates(#[trigger] ids[k], passcodes[k]),
        forall|j: int, k: int| 0 <= j < k < ids.len() ==> #[trigger] ids[j] != #[trigger] ids[k],
{
    let n = ids.len() as int;
    lemma_registrations_prefix(stores, ids, passcodes, n);
    assert forall|j: int, k: int| 0 <= j < k < ids.len() implies #[trigger] ids[j] != #[trigger] ids[k] by {
        lemma_registrations_prefix(stores, ids, passcodes, k);
        assert(stores[k].stored().contains_key(ids[j]));
        assert(registration_recorded(stores[k], stores[k + 1], ids[k], passcodes[k]));
    }
}

} // verus!
