//! The session registry: list, replace, clear, create and delete over the
//! one namespace record of the backing store.
//!
//! Create and delete are read-modify-write cycles. Against a store shared
//! with concurrent writers such a cycle can lose an update: two writers read
//! the same state, each adds its own entry, and the later write silently
//! drops the earlier one. The registry closes that hazard with a
//! compare-and-swap discipline: every mutating write is conditional on the
//! version token it read, conflicts are retried with a bounded budget, and
//! an exhausted budget surfaces as [`RegistryError::RegistryBusy`], distinct
//! from a store fault.

use crate::kv::{CasOutcome, GetOutcome, MemStore, PutOutcome};
use crate::session::{
    all_ids_nonempty, remove_entries, upsert_entries, Entries, Session, SessionCollection,
};
use vstd::prelude::*;

verus! {

/// How many conditional writes a mutating operation attempts before it
/// reports [`RegistryError::RegistryBusy`].
pub const RETRY_BUDGET: u64 = 5;

/// Why a registry operation failed.
#[derive(Clone, Copy, Debug, PartialEq, Eq, Structural)]
pub enum RegistryError {
    /// The request was malformed: an entry carried an empty identifier.
    BadRequest,
    /// The backing store reported an I/O fault; not retried at this layer.
    StoreUnavailable,
    /// Every conditional write in the retry budget was refused with a
    /// conflict; the caller should retry later.
    RegistryBusy,
}

/// Lists the collection: what the store holds, or the empty collection
/// while nothing was ever stored — an empty registry is a normal state,
/// not a fault.
pub fn list(store: &MemStore) -> (r: Result<SessionCollection, RegistryError>)
    requires
        store.wf(),
    ensures
        match r {
            Ok(c) => !store.fail_io && c@ == store.contents() && c.wf(),
            Err(e) => store.fail_io && e == RegistryError::StoreUnavailable,
        },
{
    match store.get() {
        GetOutcome::Present(c, _v) => Ok(c),
        GetOutcome::Absent => Ok(SessionCollection::empty()),
        GetOutcome::Failed => Err(RegistryError::StoreUnavailable),
    }
}

/// Replaces the whole collection. Deliberately last-writer-wins: the caller
/// asked for exactly this state, so no read or version check precedes the
/// write. Rejected where any entry carries an empty identifier.
pub fn replace(store: &mut MemStore, c: SessionCollection) -> (r: Result<(), RegistryError>)
    requires
        old(store).wf(),
        c.wf(),
        old(store).version < u64::MAX,
    ensures
        final(store).wf(),
        final(store).fail_io == old(store).fail_io,
        final(store).force_conflict == old(store).force_conflict,
        final(store).cas_attempts == old(store).cas_attempts,
        match r {
            Ok(()) => all_ids_nonempty(c@) && !old(store).fail_io && final(store).contents() == c@,
            Err(RegistryError::BadRequest) => !all_ids_nonempty(c@) && *final(store) == *old(store),
            Err(RegistryError::StoreUnavailable) => all_ids_nonempty(c@) && old(store).fail_io
                && *final(store) == *old(store),
            Err(RegistryError::RegistryBusy) => false,
        },
{
    if !c.ids_all_nonempty() {
        return Err(RegistryError::BadRequest);
    }
    match store.put(c) {
        PutOutcome::Accepted => Ok(()),
        PutOutcome::Failed => Err(RegistryError::StoreUnavailable),
    }
}

/// Clears the registry: replaces the collection with the empty one. Sets
/// state rather than merging it, so no read-modify-write cycle is needed.
pub fn clear(store: &mut MemStore) -> (r: Result<(), RegistryError>)
    requires
        old(store).wf(),
        old(store).version < u64::MAX,
    ensures
        final(store).wf(),
        final(store).fail_io == old(store).fail_io,
        final(store).force_conflict == old(store).force_conflict,
        final(store).cas_attempts == old(store).cas_attempts,
        match r {
            Ok(()) => !old(store).fail_io && final(store).contents() == Seq::<(
                Seq<char>,
                Seq<char>,
            )>::empty(),
            Err(e) => e == RegistryError::StoreUnavailable && old(store).fail_io && *final(store)
                == *old(store),
        },
{
    match store.put(SessionCollection::empty()) {
        PutOutcome::Accepted => Ok(()),
        PutOutcome::Failed => Err(RegistryError::StoreUnavailable),
    }
}

/// Creates (or updates, by upsert) one session under its identifier, through
/// the compare-and-swap retry loop. An absent record reads as the empty
/// collection, so the first create also works against a fresh store.
pub fn create(store: &mut MemStore, s: Session) -> (r: Result<(), RegistryError>)
    requires
        old(store).wf(),
        old(store).version < u64::MAX,
        old(store).cas_attempts + RETRY_BUDGET <= u64::MAX,
    ensures
        final(store).wf(),
        final(store).fail_io == old(store).fail_io,
        final(store).force_conflict == old(store).force_conflict,
        match r {
            Ok(()) => s.id@.len() > 0
                && !old(store).fail_io
                && !old(store).force_conflict
                && final(store).contents() == upsert_entries(old(store).contents(), s.id@, s.payload@)
                && final(store).cas_attempts == old(store).cas_attempts + 1,
            Err(RegistryError::BadRequest) => s.id@.len() == 0 && *final(store) == *old(store),
            Err(RegistryError::StoreUnavailable) => s.id@.len() > 0
                && old(store).fail_io
                && *final(store) == *old(store),
            Err(RegistryError::RegistryBusy) => s.id@.len() > 0
                && !old(store).fail_io
                && old(store).force_conflict
                && final(store).contents() == old(store).contents()
                && final(store).version == old(store).version
                && final(store).cas_attempts == old(store).cas_attempts + RETRY_BUDGET,
        },
{
    if s.id.as_str().is_empty() {
        return Err(RegistryError::BadRequest);
    }
    let mut attempts: u64 = 0;
    while attempts < RETRY_BUDGET
        invariant
            store.wf(),
            store.fail_io == old(store).fail_io,
            store.force_conflict == old(store).force_conflict,
            store.record == old(store).record,
            store.version == old(store).version,
            store.cas_attempts == old(store).cas_attempts + attempts,
            attempts <= RETRY_BUDGET,
            attempts > 0 ==> store.force_conflict && !store.fail_io,
            old(store).version < u64::MAX,
            old(store).cas_attempts + RETRY_BUDGET <= u64::MAX,
            s.id@.len() > 0,
        decreases RETRY_BUDGET - attempts,
    {
        let read = store.get();
        let (mut current, expected): (SessionCollection, u64) = match read {
            GetOutcome::Present(c, v) => (c, v),
            GetOutcome::Absent => (SessionCollection::empty(), 0),
            GetOutcome::Failed => {
                return Err(RegistryError::StoreUnavailable);
            },
        };
        current.upsert(s.duplicate());
        match store.put_if_unchanged(current, expected) {
            CasOutcome::Accepted(_v) => {
                return Ok(());
            },
            CasOutcome::Conflict => {},
            CasOutcome::Failed => {
                return Err(RegistryError::StoreUnavailable);
            },
        }
        attempts = attempts + 1;
    }
    Err(RegistryError::RegistryBusy)
}

/// Deletes the session under `id`, through the same compare-and-swap retry
/// loop. Deleting an identifier that is not there is an idempotent success.
pub fn delete(store: &mut MemStore, id: &String) -> (r: Result<(), RegistryError>)
    requires
        old(store).wf(),
        old(store).version < u64::MAX,
        old(store).cas_attempts + RETRY_BUDGET <= u64::MAX,
    ensures
        final(store).wf(),
        final(store).fail_io == old(store).fail_io,
        final(store).force_conflict == old(store).force_conflict,
        match r {
            Ok(()) => !old(store).fail_io
                && !old(store).force_conflict
                && final(store).contents() == remove_entries(old(store).contents(), id@)
                && final(store).cas_attempts == old(store).cas_attempts + 1,
            Err(RegistryError::BadRequest) => false,
            Err(RegistryError::StoreUnavailable) => old(store).fail_io
                && *final(store) == *old(store),
            Err(RegistryError::RegistryBusy) => !old(store).fail_io
                && old(store).force_conflict
                && final(store).contents() == old(store).contents()
                && final(store).version == old(store).version
                && final(store).cas_attempts == old(store).cas_attempts + RETRY_BUDGET,
        },
{
    let mut attempts: u64 = 0;
    while attempts < RETRY_BUDGET
        invariant
            store.wf(),
            store.fail_io == old(store).fail_io,
            store.force_conflict == old(store).force_conflict,
            store.record == old(store).record,
            store.version == old(store).version,
            store.cas_attempts == old(store).cas_attempts + attempts,
            attempts <= RETRY_BUDGET,
            attempts > 0 ==> store.force_conflict && !store.fail_io,
            old(store).version < u64::MAX,
            old(store).cas_attempts + RETRY_BUDGET <= u64::MAX,
        decreases RETRY_BUDGET - attempts,
    {
        let read = store.get();
        let (mut current, expected): (SessionCollection, u64) = match read {
            GetOutcome::Present(c, v) => (c, v),
            GetOutcome::Absent => (SessionCollection::empty(), 0),
            GetOutcome::Failed => {
                return Err(RegistryError::StoreUnavailable);
            },
        };
        current.remove(id);
        match store.put_if_unchanged(current, expected) {
            CasOutcome::Accepted(_v) => {
                return Ok(());
            },
            CasOutcome::Conflict => {},
            CasOutcome::Failed => {
                return Err(RegistryError::StoreUnavailable);
            },
        }
        attempts = attempts + 1;
    }
    Err(RegistryError::RegistryBusy)
}

} // verus!
