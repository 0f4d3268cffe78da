//! An in-memory key-value store holding the one namespace record.
//!
//! The backing store offers `get`, an unconditional `put`, and a conditional
//! `put_if_unchanged` (compare-and-swap) guarded by an opaque version token.
//! This model also carries two injectable faults — a permanent I/O failure
//! and a store that reports `Conflict` on every conditional write — so that
//! the registry's retry protocol can be driven through every branch.

use crate::session::{distinct_ids, Entries, SessionCollection};
use vstd::prelude::*;

verus! {

/// What a read of the namespace key yields.
pub enum GetOutcome {
    /// The stored collection together with its version token.
    Present(SessionCollection, u64),
    /// Nothing has ever been stored under the key.
    Absent,
    /// The store reported an I/O fault.
    Failed,
}

/// What an unconditional write yields.
pub enum PutOutcome {
    Accepted,
    Failed,
}

/// What a conditional (compare-and-swap) write yields.
pub enum CasOutcome {
    /// The expected version still matched: the write took effect, and the
    /// stored record now carries the returned token.
    Accepted(u64),
    /// The stored version no longer matched: storage is unchanged.
    Conflict,
    /// The store reported an I/O fault; storage is unchanged.
    Failed,
}

/// Whether a conditional write against a record at `stored` may take effect
/// when the writer expected the token `expected`: only an exact match does.
/// A writer holding a stale token — one read before someone else's
/// successful write — is always refused.
pub open spec fn cas_accepts(stored: u64, expected: u64) -> bool {
    stored == expected
}

/// The in-memory store. The version token is 0 while nothing is stored and
/// is bumped by every successful write, so a token read before a write can
/// never match after it.
pub struct MemStore {
    /// The stored record; `None` until the first successful write.
    pub record: Option<SessionCollection>,
    /// The version token of the stored record; 0 while nothing is stored.
    pub version: u64,
    /// When set, every read and write reports an I/O fault.
    pub fail_io: bool,
    /// When set, every conditional write reports `Conflict`.
    pub force_conflict: bool,
    /// How many conditional writes have been attempted against this store.
    pub cas_attempts: u64,
}

impl MemStore {
    /// A record is present exactly when some write succeeded, and what is
    /// at rest always decodes to a well-formed collection.
    pub open spec fn wf(&self) -> bool {
        &&& (self.record is Some <==> self.version >= 1)
        &&& (self.record is Some ==> distinct_ids(self.record.unwrap()@))
    }

    /// The entries at rest: what the stored record holds, or nothing while
    /// the key is absent.
    pub open spec fn contents(&self) -> Entries {
        match self.record {
            Some(c) => c@,
            None => Seq::empty(),
        }
    }

    /// A fresh, empty, healthy store.
    pub fn new() -> (r: MemStore)
        ensures
            r.record is None,
            r.version == 0,
            !r.fail_io,
            !r.force_conflict,
            r.cas_attempts == 0,
            r.wf(),
            r.contents() == Seq::<(Seq<char>, Seq<char>)>::empty(),
    {
        MemStore {
            record: None,
            version: 0,
            fail_io: false,
            force_conflict: false,
            cas_attempts: 0,
        }
    }

    /// `get(key)`: the stored collection and its version token, `Absent`
    /// where nothing was ever written, or a fault.
    pub fn get(&self) -> (r: GetOutcome)
        requires
            self.wf(),
        ensures
            match r {
                GetOutcome::Present(c, v) => !self.fail_io && self.record is Some && c@
                    == self.contents() && c.wf() && v == self.version,
                GetOutcome::Absent => !self.fail_io && self.record is None,
                GetOutcome::Failed => self.fail_io,
            },
    {
        if self.fail_io {
            return GetOutcome::Failed;
        }
        match &self.record {
            Some(c) => GetOutcome::Present(c.duplicate(), self.version),
            None => GetOutcome::Absent,
        }
    }

    /// `put(key, value)`: unconditional overwrite, last writer wins.
    pub fn put(&mut self, c: SessionCollection) -> (r: PutOutcome)
        requires
            old(self).wf(),
            c.wf(),
            old(self).version < u64::MAX,
        ensures
            final(self).wf(),
            final(self).fail_io == old(self).fail_io,
            final(self).force_conflict == old(self).force_conflict,
            final(self).cas_attempts == old(self).cas_attempts,
            match r {
                PutOutcome::Accepted => !old(self).fail_io && final(self).contents() == c@
                    && final(self).version == old(self).version + 1,
                PutOutcome::Failed => old(self).fail_io && *final(self) == *old(self),
            },
    {
        if self.fail_io {
            return PutOutcome::Failed;
        }
        self.record = Some(c);
        self.version = self.version + 1;
        PutOutcome::Accepted
    }

    /// `put_if_unchanged(key, value, expected)`: the write takes effect only
    /// if the stored version token still equals `expected`; otherwise the
    /// store reports `Conflict` and is left exactly as it was.
    pub fn put_if_unchanged(&mut self, c: SessionCollection, expected: u64) -> (r: CasOutcome)
        requires
            old(self).wf(),
            c.wf(),
            old(self).version < u64::MAX,
            old(self).cas_attempts < u64::MAX,
        ensures
            final(self).wf(),
            final(self).fail_io == old(self).fail_io,
            final(self).force_conflict == old(self).force_conflict,
            final(self).cas_attempts == old(self).cas_attempts + 1,
            match r {
                CasOutcome::Accepted(v) => !old(self).fail_io && !old(self).force_conflict
                    && cas_accepts(old(self).version, expected) && final(self).contents() == c@
                    && v == old(self).version + 1 && final(self).version == v,
                CasOutcome::Conflict => !old(self).fail_io && (old(self).force_conflict
                    || !cas_accepts(old(self).version, expected))
                    && final(self).record == old(self).record
                    && final(self).version == old(self).version,
                CasOutcome::Failed => old(self).fail_io && final(self).record == old(self).record
                    && final(self).version == old(self).version,
            },
    {
        self.cas_attempts = self.cas_attempts + 1;
        if self.fail_io {
            return CasOutcome::Failed;
        }
        if self.force_conflict || expected != self.version {
            return CasOutcome::Conflict;
        }
        self.record = Some(c);
        self.version = self.version + 1;
        CasOutcome::Accepted(self.version)
    }
}

} // verus!
