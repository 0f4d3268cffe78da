use session_registry::session::{Session, SessionCollection};

fn coll(entries: &[(&str, &str)]) -> SessionCollection {
    let mut c = SessionCollection::empty();
    for (id, payload) in entries {
        c.upsert(Session::new(id.to_string(), payload.to_string()));
    }
    c
}

#[test]
fn empty_collection_has_no_entries() {
    let c = SessionCollection::empty();
    assert_eq!(c.len(), 0);
    assert!(c.find(&"a".to_string()).is_none());
    assert!(c.get_payload(&"a".to_string()).is_none());
}

#[test]
fn upsert_appends_new_ids_in_insertion_order() {
    let c = coll(&[("a", "p1"), ("b", "p2"), ("c", "p3")]);
    assert_eq!(c.len(), 3);
    assert_eq!(c.entry_at(0).id, "a");
    assert_eq!(c.entry_at(1).id, "b");
    assert_eq!(c.entry_at(2).id, "c");
    assert_eq!(c.get_payload(&"b".to_string()), Some(&"p2".to_string()));
}

#[test]
fn upsert_existing_id_replaces_payload_in_place() {
    let mut c = coll(&[("a", "p1"), ("b", "p2")]);
    c.upsert(Session::new("a".to_string(), "p9".to_string()));
    assert_eq!(c.len(), 2);
    assert_eq!(c.entry_at(0).id, "a");
    assert_eq!(c.entry_at(0).payload, "p9");
    assert_eq!(c.entry_at(1).id, "b");
    assert_eq!(c.entry_at(1).payload, "p2");
}

#[test]
fn remove_middle_entry_keeps_order_of_the_rest() {
    let mut c = coll(&[("a", "p1"), ("b", "p2"), ("c", "p3")]);
    c.remove(&"b".to_string());
    assert_eq!(c.len(), 2);
    assert_eq!(c.entry_at(0).id, "a");
    assert_eq!(c.entry_at(1).id, "c");
    assert!(c.get_payload(&"b".to_string()).is_none());
}

#[test]
fn remove_absent_id_changes_nothing() {
    let mut c = coll(&[("a", "p1")]);
    c.remove(&"zz".to_string());
    assert_eq!(c.len(), 1);
    assert_eq!(c.entry_at(0).id, "a");
    assert_eq!(c.entry_at(0).payload, "p1");
}

#[test]
fn find_reports_the_position_of_an_id() {
    let c = coll(&[("a", "p1"), ("b", "p2")]);
    assert_eq!(c.find(&"a".to_string()), Some(0));
    assert_eq!(c.find(&"b".to_string()), Some(1));
    assert_eq!(c.find(&"c".to_string()), None);
}

#[test]
fn duplicate_copies_every_entry() {
    let c = coll(&[("a", "p1"), ("b", "p2")]);
    let d = c.duplicate();
    assert_eq!(d.len(), 2);
    assert_eq!(d.entry_at(0).id, "a");
    assert_eq!(d.entry_at(0).payload, "p1");
    assert_eq!(d.entry_at(1).id, "b");
    assert_eq!(d.entry_at(1).payload, "p2");
}

#[test]
fn ids_all_nonempty_spots_an_empty_id() {
    let good = coll(&[("a", "p1")]);
    assert!(good.ids_all_nonempty());
    let bad = coll(&[("a", "p1"), ("", "p2")]);
    assert!(!bad.ids_all_nonempty());
    assert!(SessionCollection::empty().ids_all_nonempty());
}
