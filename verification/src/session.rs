//! Session records and the collection that holds them.
//!
//! A [`Session`] is an opaque identifier plus an opaque payload string.
//! A [`SessionCollection`] maps identifiers to sessions: identifiers are
//! unique, and insertion order is preserved so that listings are stable.

use vstd::prelude::*;
use vstd::pervasive::VecAdditionalExecFns;

verus! {

/// One collaboration session: a caller-supplied identifier and an opaque
/// payload. The identifier is the unique key within a collection.
#[derive(Debug)]
pub struct Session {
    pub id: String,
    pub payload: String,
}

/// What a collection holds, as ghost data: a sequence of
/// (identifier, payload) pairs in insertion order.
pub type Entries = Seq<(Seq<char>, Seq<char>)>;

/// The identifiers of `s`, in order.
pub open spec fn ids_of(s: Entries) -> Seq<Seq<char>> {
    s.map_values(|e: (Seq<char>, Seq<char>)| e.0)
}

/// No identifier occurs twice in `s`.
pub open spec fn distinct_ids(s: Entries) -> bool {
    forall|i: int, j: int| 0 <= i < j < s.len() ==> s[i].0 != s[j].0
}

/// The payload stored under `id` in `s`, if any: the first match wins
/// (under `distinct_ids` it is the only one).
pub open spec fn lookup(s: Entries, id: Seq<char>) -> Option<Seq<char>>
    decreases s.len(),
{
    if s.len() == 0 {
        None
    } else if s[0].0 == id {
        Some(s[0].1)
    } else {
        lookup(s.drop_first(), id)
    }
}

/// `s` with the payload under `id` set to `p`: replaced in place where the
/// identifier already occurs, appended at the end where it does not.
pub open spec fn upsert_entries(s: Entries, id: Seq<char>, p: Seq<char>) -> Entries
    decreases s.len(),
{
    if s.len() == 0 {
        seq![(id, p)]
    } else if s[0].0 == id {
        seq![(id, p)] + s.drop_first()
    } else {
        seq![s[0]] + upsert_entries(s.drop_first(), id, p)
    }
}

/// `s` with the entry under `id` removed; `s` itself where none occurs.
/// The first match is removed (under `distinct_ids` it is the only one).
pub open spec fn remove_entries(s: Entries, id: Seq<char>) -> Entries
    decreases s.len(),
{
    if s.len() == 0 {
        Seq::empty()
    } else if s[0].0 == id {
        s.drop_first()
    } else {
        seq![s[0]] + remove_entries(s.drop_first(), id)
    }
}

/// A collection of sessions, keyed by identifier, in insertion order.
#[derive(Debug)]
pub struct SessionCollection {
    items: Vec<Session>,
}

impl View for Session {
    type V = (Seq<char>, Seq<char>);

    open spec fn view(&self) -> (Seq<char>, Seq<char>) {
        (self.id@, self.payload@)
    }
}

impl View for SessionCollection {
    type V = Entries;

    closed spec fn view(&self) -> Entries {
        self.items@.map_values(|s: Session| s@)
    }
}

impl Session {
    /// Builds a session from its two fields.
    pub fn new(id: String, payload: String) -> (r: Session)
        ensures
            r@ == (id@, payload@),
    {
        Session { id, payload }
    }

    /// A copy with the same identifier and payload.
    pub fn duplicate(&self) -> (r: Session)
        ensures
            r@ == self@,
    {
        Session { id: self.id.clone(), payload: self.payload.clone() }
    }
}

impl SessionCollection {
    /// Identifiers are unique within a well-formed collection.
    pub open spec fn wf(&self) -> bool {
        distinct_ids(self@)
    }

    /// The empty collection.
    pub fn empty() -> (r: SessionCollection)
        ensures
            r@ == Seq::<(Seq<char>, Seq<char>)>::empty(),
            r.wf(),
    {
        SessionCollection { items: Vec::new() }
    }

    /// How many sessions the collection holds.
    pub fn len(&self) -> (r: usize)
        ensures
            r == self@.len(),
    {
        self.items.len()
    }

    /// The session at position `i` of the insertion order.
    pub fn entry_at(&self, i: usize) -> (r: &Session)
        requires
            i < self@.len(),
        ensures
            r@ == self@[i as int],
    {
        &self.items[i]
    }

    /// The position of the entry whose identifier equals `id`, if any.
    pub fn find(&self, id: &String) -> (r: Option<usize>)
        ensures
            match r {
                Some(i) => i < self@.len() && self@[i as int].0 == id@ && (forall|j: int|
                    0 <= j < i ==> self@[j].0 != id@),
                None => forall|j: int| 0 <= j < self@.len() ==> self@[j].0 != id@,
            },
    {
        let n = self.items.len();
        let mut k: usize = 0;
        while k < n
            invariant
                n == self@.len(),
                k <= n,
                forall|j: int| 0 <= j < k ==> self@[j].0 != id@,
            decreases n - k,
        {
            if self.items[k].id == *id {
                return Some(k);
            }
            k += 1;
        }
        None
    }

    /// The payload stored under `id`, if any.
    pub fn get_payload(&self, id: &String) -> (r: Option<&String>)
        ensures
            match r {
                Some(p) => lookup(self@, id@) == Some(p@),
                None => lookup(self@, id@) is None,
            },
    {
        match self.find(id) {
            Some(i) => {
                proof {
                    lemma_lookup_at_index(self@, id@, i as int);
                }
                Some(&self.items[i].payload)
            },
            None => {
                proof {
                    lemma_lookup_absent(self@, id@);
                }
                None
            },
        }
    }

    /// Sets the payload under `s.id`: replaces it in place where the
    /// identifier already occurs, appends the session where it does not.
    pub fn upsert(&mut self, s: Session)
        requires
            old(self).wf(),
        ensures
            final(self)@ == upsert_entries(old(self)@, s.id@, s.payload@),
            final(self).wf(),
    {
        let ghost sid = s.id@;
        let ghost sp = s.payload@;
        match self.find(&s.id) {
            Some(i) => {
                proof {
                    lemma_upsert_at_index(self@, sid, sp, i as int);
                }
                self.items.set(i, s);
                proof {
                    assert(self@ =~= old(self)@.update(i as int, (sid, sp)));
                    lemma_distinct_after_update(old(self)@, i as int, sp);
                }
            },
            None => {
                proof {
                    lemma_upsert_absent(self@, sid, sp);
                }
                self.items.push(s);
                proof {
                    assert(self@ =~= old(self)@.push((sid, sp)));
                    lemma_distinct_after_push(old(self)@, sid, sp);
                }
            },
        }
    }

    /// Removes the entry under `id`; a collection without it is unchanged.
    pub fn remove(&mut self, id: &String)
        requires
            old(self).wf(),
        ensures
            final(self)@ == remove_entries(old(self)@, id@),
            final(self).wf(),
    {
        match self.find(id) {
            Some(i) => {
                proof {
                    lemma_remove_at_index(self@, id@, i as int);
                }
                let _ = self.items.remove(i);
                proof {
                    assert(self@ =~= old(self)@.remove(i as int));
                    lemma_distinct_after_seq_remove(old(self)@, i as int);
                }
            },
            None => {
                proof {
                    lemma_remove_absent(self@, id@);
                    assert(self@ =~= remove_entries(old(self)@, id@));
                }
            },
        }
    }

    /// A copy holding the same entries in the same order.
    pub fn duplicate(&self) -> (r: SessionCollection)
        ensures
            r@ == self@,
            self.wf() ==> r.wf(),
    {
        let n = self.items.len();
        let mut items: Vec<Session> = Vec::new();
        let mut k: usize = 0;
        while k < n
            invariant
                n == self@.len(),
                k <= n,
                items@.len() == k,
                forall|j: int| 0 <= j < k ==> (#[trigger] items@[j])@ == self@[j],
            decreases n - k,
        {
            items.push(self.items[k].duplicate());
            k += 1;
        }
        let r = SessionCollection { items };
        proof {
            assert(r@ =~= self@);
        }
        r
    }

    /// Whether every identifier in the collection is non-empty.
    pub fn ids_all_nonempty(&self) -> (r: bool)
        ensures
            r == all_ids_nonempty(self@),
    {
        let n = self.items.len();
        let mut k: usize = 0;
        while k < n
            invariant
                n == self@.len(),
                k <= n,
                forall|j: int| 0 <= j < k ==> self@[j].0.len() > 0,
            decreases n - k,
        {
            if self.items[k].id.as_str().is_empty() {
                proof {
                    assert(self@[k as int].0.len() == 0);
                }
                return false;
            }
            k += 1;
        }
        true
    }
}

/// Every identifier in `s` is non-empty.
pub open spec fn all_ids_nonempty(s: Entries) -> bool {
    forall|i: int| 0 <= i < s.len() ==> s[i].0.len() > 0
}

/// Where `id` first occurs at position `i`, `lookup` finds that payload.
pub proof fn lemma_lookup_at_index(s: Entries, id: Seq<char>, i: int)
    requires
        0 <= i < s.len(),
        s[i].0 == id,
        forall|j: int| 0 <= j < i ==> s[j].0 != id,
    ensures
        lookup(s, id) == Some(s[i].1),
    decreases i,
{
    if i > 0 {
        assert(forall|j: int| 0 <= j < i - 1 ==> s.drop_first()[j].0 != id);
        lemma_lookup_at_index(s.drop_first(), id, i - 1);
    }
}

/// Where `id` occurs nowhere in `s`, `lookup` finds nothing.
pub proof fn lemma_lookup_absent(s: Entries, id: Seq<char>)
    requires
        forall|j: int| 0 <= j < s.len() ==> s[j].0 != id,
    ensures
        lookup(s, id) is None,
    decreases s.len(),
{
    if s.len() > 0 {
        lemma_lookup_absent(s.drop_first(), id);
    }
}

/// Where `id` first occurs at position `i`, upserting replaces that entry.
pub proof fn lemma_upsert_at_index(s: Entries, id: Seq<char>, p: Seq<char>, i: int)
    requires
        0 <= i < s.len(),
        s[i].0 == id,
        forall|j: int| 0 <= j < i ==> s[j].0 != id,
    ensures
        upsert_entries(s, id, p) == s.update(i, (id, p)),
    decreases i,
{
    if i == 0 {
        assert(upsert_entries(s, id, p) =~= s.update(0, (id, p)));
    } else {
        assert(forall|j: int| 0 <= j < i - 1 ==> s.drop_first()[j].0 != id);
        lemma_upsert_at_index(s.drop_first(), id, p, i - 1);
        assert(upsert_entries(s, id, p) =~= s.update(i, (id, p)));
    }
}

/// Where `id` occurs nowhere in `s`, upserting appends the entry.
pub proof fn lemma_upsert_absent(s: Entries, id: Seq<char>, p: Seq<char>)
    requires
        forall|j: int| 0 <= j < s.len() ==> s[j].0 != id,
    ensures
        upsert_entries(s, id, p) == s.push((id, p)),
    decreases s.len(),
{
    if s.len() == 0 {
        assert(upsert_entries(s, id, p) =~= s.push((id, p)));
    } else {
        lemma_upsert_absent(s.drop_first(), id, p);
        assert(upsert_entries(s, id, p) =~= s.push((id, p)));
    }
}

/// Where `id` first occurs at position `i`, removal deletes that entry.
pub proof fn lemma_remove_at_index(s: Entries, id: Seq<char>, i: int)
    requires
        0 <= i < s.len(),
        s[i].0 == id,
        forall|j: int| 0 <= j < i ==> s[j].0 != id,
    ensures
        remove_entries(s, id) == s.remove(i),
    decreases i,
{
    if i == 0 {
        assert(remove_entries(s, id) =~= s.remove(0));
    } else {
        assert(forall|j: int| 0 <= j < i - 1 ==> s.drop_first()[j].0 != id);
        lemma_remove_at_index(s.drop_first(), id, i - 1);
        assert(remove_entries(s, id) =~= s.remove(i));
    }
}

/// Where `id` occurs nowhere in `s`, removal leaves `s` as it is.
pub proof fn lemma_remove_absent(s: Entries, id: Seq<char>)
    requires
        forall|j: int| 0 <= j < s.len() ==> s[j].0 != id,
    ensures
        remove_entries(s, id) == s,
    decreases s.len(),
{
    if s.len() == 0 {
        assert(remove_entries(s, id) =~= s);
    } else {
        lemma_remove_absent(s.drop_first(), id);
        assert(remove_entries(s, id) =~= s);
    }
}

/// Replacing the payload at a position keeps the identifiers distinct.
pub proof fn lemma_distinct_after_update(s: Entries, i: int, p: Seq<char>)
    requires
        distinct_ids(s),
        0 <= i < s.len(),
    ensures
        distinct_ids(s.update(i, (s[i].0, p))),
{
    let t = s.update(i, (s[i].0, p));
    assert forall|a: int, b: int| 0 <= a < b < t.len() implies t[a].0 != t[b].0 by {
        assert(t[a].0 == s[a].0);
        assert(t[b].0 == s[b].0);
    }
}

/// Appending an entry whose identifier is new keeps them distinct.
pub proof fn lemma_distinct_after_push(s: Entries, id: Seq<char>, p: Seq<char>)
    requires
        distinct_ids(s),
        forall|j: int| 0 <= j < s.len() ==> s[j].0 != id,
    ensures
        distinct_ids(s.push((id, p))),
{
}

/// Removing an entry keeps the identifiers distinct.
pub proof fn lemma_distinct_after_seq_remove(s: Entries, i: int)
    requires
        distinct_ids(s),
        0 <= i < s.len(),
    ensures
        distinct_ids(s.remove(i)),
{
    let t = s.remove(i);
    assert forall|a: int, b: int| 0 <= a < b < t.len() implies t[a].0 != t[b].0 by {
        if a < i {
            assert(t[a] == s[a]);
        } else {
            assert(t[a] == s[a + 1]);
        }
        if b < i {
            assert(t[b] == s[b]);
        } else {
            assert(t[b] == s[b + 1]);
        }
    }
}

} // verus!
