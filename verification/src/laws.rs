//! The registry's load-bearing properties, stated and proved over the
//! ghost model: the entry sequences that the operations' contracts speak
//! of, and the version-token discipline of the conditional write.

use crate::kv::{cas_accepts, MemStore};
use crate::session::{
    distinct_ids, ids_of, lookup, remove_entries, upsert_entries, Entries,
};
use vstd::prelude::*;

verus! {

/// The tail of a sequence with distinct identifiers has them distinct too.
proof fn lemma_distinct_drop_first(s: Entries)
    requires
        distinct_ids(s),
        s.len() > 0,
    ensures
        distinct_ids(s.drop_first()),
{
    assert forall|a: int, b: int|
        0 <= a < b < s.drop_first().len() implies s.drop_first()[a].0 != s.drop_first()[b].0 by {
        assert(s.drop_first()[a] == s[a + 1]);
        assert(s.drop_first()[b] == s[b + 1]);
    }
}

/// An identifier that occurs somewhere in `s` is found by `lookup`.
proof fn lemma_lookup_present(s: Entries, id: Seq<char>, i: int)
    requires
        0 <= i < s.len(),
        s[i].0 == id,
    ensures
        lookup(s, id) is Some,
    decreases i,
{
    if s[0].0 != id {
        lemma_lookup_present(s.drop_first(), id, i - 1);
    }
}

/// After an upsert, the upserted identifier maps to the new payload.
pub proof fn lemma_upsert_lookup(s: Entries, id: Seq<char>, p: Seq<char>)
    ensures
        lookup(upsert_entries(s, id, p), id) == Some(p),
    decreases s.len(),
{
    let u = upsert_entries(s, id, p);
    if s.len() == 0 {
    } else if s[0].0 == id {
        assert(u[0] == (id, p));
    } else {
        lemma_upsert_lookup(s.drop_first(), id, p);
        assert(u[0] == s[0]);
        assert(u.drop_first() =~= upsert_entries(s.drop_first(), id, p));
    }
}

/// An upsert leaves every other identifier's payload as it was.
pub proof fn lemma_upsert_preserves_others(s: Entries, id: Seq<char>, p: Seq<char>, q: Seq<char>)
    requires
        q != id,
    ensures
        lookup(upsert_entries(s, id, p), q) == lookup(s, q),
    decreases s.len(),
{
    let u = upsert_entries(s, id, p);
    if s.len() == 0 {
        assert(u[0] == (id, p));
        assert(u.drop_first() =~= Seq::<(Seq<char>, Seq<char>)>::empty());
        assert(lookup(Seq::<(Seq<char>, Seq<char>)>::empty(), q) is None);
    } else if s[0].0 == id {
        assert(u[0] == (id, p));
        assert(u.drop_first() =~= s.drop_first());
    } else {
        lemma_upsert_preserves_others(s.drop_first(), id, p, q);
        assert(u[0] == s[0]);
        assert(u.drop_first() =~= upsert_entries(s.drop_first(), id, p));
    }
}

/// An identifier that `lookup` does not find occurs nowhere.
proof fn lemma_absent_of_lookup_none(s: Entries, id: Seq<char>)
    requires
        lookup(s, id) is None,
    ensures
        forall|j: int| 0 <= j < s.len() ==> (#[trigger] s[j]).0 != id,
{
    assert forall|j: int| 0 <= j < s.len() implies (#[trigger] s[j]).0 != id by {
        if s[j].0 == id {
            lemma_lookup_present(s, id, j);
        }
    }
}

/// Upserting an identifier that is already there rewrites one payload in
/// place: the length and every identifier, in order, stay as they were.
proof fn lemma_upsert_pointwise(s: Entries, id: Seq<char>, p: Seq<char>)
    requires
        lookup(s, id) is Some,
    ensures
        upsert_entries(s, id, p).len() == s.len(),
        forall|j: int| 0 <= j < s.len() ==> (#[trigger] upsert_entries(s, id, p)[j]).0 == s[j].0,
    decreases s.len(),
{
    let u = upsert_entries(s, id, p);
    if s[0].0 == id {
        assert forall|j: int| 0 <= j < s.len() implies (#[trigger] u[j]).0 == s[j].0 by {
            if j == 0 {
                assert(u[0] == (id, p));
            } else {
                assert(u[j] == s.drop_first()[j - 1]);
                assert(s.drop_first()[j - 1] == s[j]);
            }
        }
    } else {
        lemma_upsert_pointwise(s.drop_first(), id, p);
        let ud = upsert_entries(s.drop_first(), id, p);
        assert forall|j: int| 0 <= j < s.len() implies (#[trigger] u[j]).0 == s[j].0 by {
            if j == 0 {
                assert(u[0] == s[0]);
            } else {
                assert(u[j] == ud[j - 1]);
                assert(s.drop_first()[j - 1] == s[j]);
            }
        }
    }
}

/// An upsert either rewrites one payload in place (the identifier was
/// there: same identifiers, same order) or appends one entry at the end
/// (it was not).
pub proof fn lemma_upsert_ids(s: Entries, id: Seq<char>, p: Seq<char>)
    ensures
        lookup(s, id) is Some ==> ids_of(upsert_entries(s, id, p)) == ids_of(s),
        lookup(s, id) is None ==> upsert_entries(s, id, p) == s.push((id, p)),
{
    let u = upsert_entries(s, id, p);
    if lookup(s, id) is Some {
        lemma_upsert_pointwise(s, id, p);
        assert forall|j: int| 0 <= j < s.len() implies ids_of(u)[j] == ids_of(s)[j] by {
            assert(u[j].0 == s[j].0);
        }
        assert(ids_of(u) =~= ids_of(s));
    } else {
        lemma_absent_of_lookup_none(s, id);
        crate::session::lemma_upsert_absent(s, id, p);
    }
}

/// An upsert into a collection with distinct identifiers keeps them
/// distinct: no identifier ever gains a duplicate entry.
pub proof fn lemma_upsert_distinct(s: Entries, id: Seq<char>, p: Seq<char>)
    requires
        distinct_ids(s),
    ensures
        distinct_ids(upsert_entries(s, id, p)),
{
    let u = upsert_entries(s, id, p);
    if lookup(s, id) is Some {
        lemma_upsert_pointwise(s, id, p);
        assert forall|a: int, b: int| 0 <= a < b < u.len() implies u[a].0 != u[b].0 by {
            assert(u[a].0 == s[a].0);
            assert(u[b].0 == s[b].0);
        }
    } else {
        lemma_absent_of_lookup_none(s, id);
        crate::session::lemma_upsert_absent(s, id, p);
        crate::session::lemma_distinct_after_push(s, id, p);
    }
}

/// After a removal from a collection with distinct identifiers, the removed
/// identifier occurs nowhere.
pub proof fn lemma_remove_makes_absent(s: Entries, id: Seq<char>)
    requires
        distinct_ids(s),
    ensures
        forall|j: int|
            0 <= j < remove_entries(s, id).len() ==> (#[trigger] remove_entries(s, id)[j]).0 != id,
    decreases s.len(),
{
    let t = remove_entries(s, id);
    if s.len() == 0 {
    } else if s[0].0 == id {
        assert forall|j: int| 0 <= j < t.len() implies (#[trigger] t[j]).0 != id by {
            assert(t[j] == s[j + 1]);
        }
    } else {
        lemma_distinct_drop_first(s);
        lemma_remove_makes_absent(s.drop_first(), id);
        assert forall|j: int| 0 <= j < t.len() implies (#[trigger] t[j]).0 != id by {
            if j > 0 {
                assert(t[j] == remove_entries(s.drop_first(), id)[j - 1]);
            }
        }
    }
}

/// Round trip: a successful replace of the entries `x` leaves exactly `x`
/// at rest (the contract of `registry::replace`), and a successful list of
/// that store returns exactly what is at rest (the contract of
/// `registry::list`) — so the caller gets `x` back: the same identifiers
/// and payloads in the same order.
pub proof fn lemma_replace_then_list(store: MemStore, x: Entries, listed: Entries)
    requires
        store.contents() == x,
        listed == store.contents(),
    ensures
        listed == x,
{
}

/// Deleting an identifier twice in succession ends in the same state as
/// deleting it once: the second removal finds nothing and is a no-op.
pub proof fn lemma_delete_idempotent(s: Entries, id: Seq<char>)
    requires
        distinct_ids(s),
    ensures
        remove_entries(remove_entries(s, id), id) == remove_entries(s, id),
{
    lemma_remove_makes_absent(s, id);
    crate::session::lemma_remove_absent(remove_entries(s, id), id);
}

/// Upsert semantics of create: writing a session under an identifier that
/// is already there replaces that payload in place — the identifiers and
/// their order stay as they were, the identifier maps to the new payload,
/// it still occurs only once, and every other entry is untouched.
pub proof fn lemma_upsert_updates_in_place(s: Entries, id: Seq<char>, p: Seq<char>)
    requires
        distinct_ids(s),
        lookup(s, id) is Some,
    ensures
        ids_of(upsert_entries(s, id, p)) == ids_of(s),
        lookup(upsert_entries(s, id, p), id) == Some(p),
        distinct_ids(upsert_entries(s, id, p)),
        forall|q: Seq<char>| q != id ==> lookup(upsert_entries(s, id, p), q) == lookup(s, q),
{
    lemma_upsert_ids(s, id, p);
    lemma_upsert_lookup(s, id, p);
    lemma_upsert_distinct(s, id, p);
    assert forall|q: Seq<char>| q != id implies lookup(upsert_entries(s, id, p), q) == lookup(
        s,
        q,
    ) by {
        lemma_upsert_preserves_others(s, id, p, q);
    }
}

/// Lost-update prevention. Writers A and B both read the collection `s0`
/// under version token `v0` and each upserts one session with a fresh
/// identifier of its own. A's conditional write lands first and moves the
/// store to some version `v1` — necessarily a different token. Then B's
/// write of its stale merge is refused by the compare-and-swap, and B's
/// retry — re-reading A's state and upserting again — yields a collection
/// holding both writers' entries: neither update is lost.
pub proof fn lemma_lost_update_prevented(
    s0: Entries,
    v0: u64,
    v1: u64,
    a_id: Seq<char>,
    a_p: Seq<char>,
    b_id: Seq<char>,
    b_p: Seq<char>,
)
    requires
        distinct_ids(s0),
        a_id != b_id,
        v1 != v0,  // every successful write bumps the version token
    ensures
        !cas_accepts(v1, v0),
        lookup(upsert_entries(upsert_entries(s0, a_id, a_p), b_id, b_p), a_id) == Some(a_p),
        lookup(upsert_entries(upsert_entries(s0, a_id, a_p), b_id, b_p), b_id) == Some(b_p),
        distinct_ids(upsert_entries(upsert_entries(s0, a_id, a_p), b_id, b_p)),
{
    let s1 = upsert_entries(s0, a_id, a_p);
    lemma_upsert_lookup(s0, a_id, a_p);
    lemma_upsert_distinct(s0, a_id, a_p);
    lemma_upsert_lookup(s1, b_id, b_p);
    lemma_upsert_preserves_others(s1, b_id, b_p, a_id);
    lemma_upsert_distinct(s1, b_id, b_p);
}

} // verus!
