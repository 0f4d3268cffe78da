use session_registry::kv::{CasOutcome, GetOutcome, MemStore};
use session_registry::registry::{
    clear, create, delete, list, replace, RegistryError, RETRY_BUDGET,
};
use session_registry::session::{Session, SessionCollection};

fn coll(entries: &[(&str, &str)]) -> SessionCollection {
    let mut c = SessionCollection::empty();
    for (id, payload) in entries {
        c.upsert(Session::new(id.to_string(), payload.to_string()));
    }
    c
}

#[test]
fn list_empty_store_returns_empty_collection() {
    let store = MemStore::new();
    let listed = list(&store).expect("listing an empty store is not an error");
    assert_eq!(listed.len(), 0);
}

#[test]
fn replace_then_list_round_trip() {
    let mut store = MemStore::new();
    replace(&mut store, coll(&[("a", "p1"), ("b", "p2"), ("c", "p3")])).unwrap();
    let listed = list(&store).unwrap();
    assert_eq!(listed.len(), 3);
    assert_eq!(listed.entry_at(0).id, "a");
    assert_eq!(listed.entry_at(0).payload, "p1");
    assert_eq!(listed.entry_at(1).id, "b");
    assert_eq!(listed.entry_at(1).payload, "p2");
    assert_eq!(listed.entry_at(2).id, "c");
    assert_eq!(listed.entry_at(2).payload, "p3");
}

#[test]
fn replace_rejects_an_empty_id() {
    let mut store = MemStore::new();
    let r = replace(&mut store, coll(&[("a", "p1"), ("", "p2")]));
    assert_eq!(r, Err(RegistryError::BadRequest));
    assert_eq!(list(&store).unwrap().len(), 0);
}

#[test]
fn create_then_list_end_to_end() {
    let mut store = MemStore::new();
    create(&mut store, Session::new("a".to_string(), "p1".to_string())).unwrap();
    let listed = list(&store).unwrap();
    assert_eq!(listed.len(), 1);
    assert_eq!(listed.entry_at(0).id, "a");
    assert_eq!(listed.entry_at(0).payload, "p1");
}

#[test]
fn create_existing_id_upserts_payload() {
    let mut store = MemStore::new();
    create(&mut store, Session::new("a".to_string(), "p1".to_string())).unwrap();
    create(&mut store, Session::new("b".to_string(), "p2".to_string())).unwrap();
    create(&mut store, Session::new("a".to_string(), "p9".to_string())).unwrap();
    let listed = list(&store).unwrap();
    assert_eq!(listed.len(), 2);
    assert_eq!(listed.entry_at(0).id, "a");
    assert_eq!(listed.entry_at(0).payload, "p9");
    assert_eq!(listed.entry_at(1).id, "b");
    assert_eq!(listed.entry_at(1).payload, "p2");
}

#[test]
fn create_rejects_an_empty_id() {
    let mut store = MemStore::new();
    let r = create(&mut store, Session::new("".to_string(), "p1".to_string()));
    assert_eq!(r, Err(RegistryError::BadRequest));
    assert_eq!(list(&store).unwrap().len(), 0);
}

#[test]
fn delete_twice_is_idempotent() {
    let mut store = MemStore::new();
    create(&mut store, Session::new("a".to_string(), "p1".to_string())).unwrap();
    create(&mut store, Session::new("b".to_string(), "p2".to_string())).unwrap();
    delete(&mut store, &"a".to_string()).unwrap();
    let after_first = list(&store).unwrap();
    assert_eq!(after_first.len(), 1);
    assert_eq!(after_first.entry_at(0).id, "b");
    // the second delete is a no-op success, ending in the same state
    delete(&mut store, &"a".to_string()).unwrap();
    let after_second = list(&store).unwrap();
    assert_eq!(after_second.len(), 1);
    assert_eq!(after_second.entry_at(0).id, "b");
    assert_eq!(after_second.entry_at(0).payload, "p2");
}

#[test]
fn delete_of_an_absent_id_succeeds() {
    let mut store = MemStore::new();
    delete(&mut store, &"ghost".to_string()).unwrap();
    assert_eq!(list(&store).unwrap().len(), 0);
}

#[test]
fn clear_empties_the_registry() {
    let mut store = MemStore::new();
    replace(&mut store, coll(&[("a", "p1"), ("b", "p2")])).unwrap();
    clear(&mut store).unwrap();
    assert_eq!(list(&store).unwrap().len(), 0);
}

#[test]
fn create_exhausts_retry_budget_on_constant_conflict() {
    let mut store = MemStore::new();
    store.force_conflict = true;
    let before = store.cas_attempts;
    let r = create(&mut store, Session::new("a".to_string(), "p1".to_string()));
    assert_eq!(r, Err(RegistryError::RegistryBusy));
    assert_eq!(store.cas_attempts, before + RETRY_BUDGET);
    assert!(store.record.is_none());
}

#[test]
fn delete_exhausts_retry_budget_on_constant_conflict() {
    let mut store = MemStore::new();
    replace(&mut store, coll(&[("a", "p1")])).unwrap();
    store.force_conflict = true;
    let before = store.cas_attempts;
    let r = delete(&mut store, &"a".to_string());
    assert_eq!(r, Err(RegistryError::RegistryBusy));
    assert_eq!(store.cas_attempts, before + RETRY_BUDGET);
    let listed = {
        store.force_conflict = false;
        list(&store).unwrap()
    };
    assert_eq!(listed.len(), 1);
    assert_eq!(listed.entry_at(0).id, "a");
}

#[test]
fn store_fault_surfaces_as_store_unavailable() {
    let mut store = MemStore::new();
    store.fail_io = true;
    assert_eq!(list(&store).unwrap_err(), RegistryError::StoreUnavailable);
    assert_eq!(
        create(&mut store, Session::new("a".to_string(), "p1".to_string())),
        Err(RegistryError::StoreUnavailable)
    );
    assert_eq!(
        delete(&mut store, &"a".to_string()),
        Err(RegistryError::StoreUnavailable)
    );
    assert_eq!(
        replace(&mut store, coll(&[("a", "p1")])),
        Err(RegistryError::StoreUnavailable)
    );
    assert_eq!(clear(&mut store), Err(RegistryError::StoreUnavailable));
}

#[test]
fn stale_conditional_write_is_refused_and_retry_keeps_both() {
    // Two writers race to add distinct sessions starting from the same state.
    let mut store = MemStore::new();
    replace(&mut store, coll(&[("seed", "p0")])).unwrap();

    // Both read the same record and version token.
    let (base_a, version) = match store.get() {
        GetOutcome::Present(c, v) => (c, v),
        _ => panic!("record should be present"),
    };
    let base_b = base_a.duplicate();

    // Writer A merges its entry and lands its conditional write first.
    let mut merged_a = base_a;
    merged_a.upsert(Session::new("a".to_string(), "pa".to_string()));
    let new_version = match store.put_if_unchanged(merged_a, version) {
        CasOutcome::Accepted(v) => v,
        _ => panic!("A's write should be accepted"),
    };

    // Writer B's merge of the stale state is refused: nothing is lost.
    let mut merged_b = base_b;
    merged_b.upsert(Session::new("b".to_string(), "pb".to_string()));
    match store.put_if_unchanged(merged_b, version) {
        CasOutcome::Conflict => {}
        _ => panic!("B's stale write must conflict"),
    }

    // B retries: re-reads the fresh state and merges again.
    let (mut retry_b, v2) = match store.get() {
        GetOutcome::Present(c, v) => (c, v),
        _ => panic!("record should be present"),
    };
    assert_eq!(v2, new_version);
    retry_b.upsert(Session::new("b".to_string(), "pb".to_string()));
    match store.put_if_unchanged(retry_b, v2) {
        CasOutcome::Accepted(_) => {}
        _ => panic!("B's retry should be accepted"),
    }

    // After both writers complete, both entries are present.
    let listed = list(&store).unwrap();
    assert_eq!(listed.len(), 3);
    assert_eq!(listed.get_payload(&"a".to_string()), Some(&"pa".to_string()));
    assert_eq!(listed.get_payload(&"b".to_string()), Some(&"pb".to_string()));
    assert_eq!(
        listed.get_payload(&"seed".to_string()),
        Some(&"p0".to_string())
    );
}
