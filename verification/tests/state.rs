use ruma_bot::state::{TypeKey, TypedStateStore};

#[derive(Clone, Debug, PartialEq)]
struct Counter {
    count: u32,
}

#[test]
fn empty_store_holds_nothing() {
    let store: TypedStateStore<Counter> = TypedStateStore::new();
    assert!(!store.contains(TypeKey(0)));
    assert_eq!(store.get(TypeKey(0)), None);
    assert!(store.snapshot(TypeKey(0)).is_none());
}

#[test]
fn get_returns_the_seeded_value_for_seeded_keys_only() {
    let mut store = TypedStateStore::new();
    store.seed(TypeKey(1), Counter { count: 10 });
    store.seed(TypeKey(7), Counter { count: 70 });
    assert_eq!(store.get(TypeKey(1)), Some(&Counter { count: 10 }));
    assert_eq!(store.get(TypeKey(7)), Some(&Counter { count: 70 }));
    assert_eq!(store.get(TypeKey(0)), None);
    assert_eq!(store.get(TypeKey(2)), None);
    assert_eq!(store.get(TypeKey(u64::MAX)), None);
    assert!(store.contains(TypeKey(1)));
    assert!(store.contains(TypeKey(7)));
    assert!(!store.contains(TypeKey(2)));
}

#[test]
fn seeding_a_key_again_replaces_the_value() {
    let mut store = TypedStateStore::new();
    store.seed(TypeKey(1), 10u32);
    store.seed(TypeKey(2), 20u32);
    store.seed(TypeKey(1), 11u32);
    assert_eq!(store.get(TypeKey(1)), Some(&11));
    assert_eq!(store.get(TypeKey(2)), Some(&20));
    store.seed(TypeKey(2), 21u32);
    store.seed(TypeKey(1), 12u32);
    assert_eq!(store.get(TypeKey(1)), Some(&12));
    assert_eq!(store.get(TypeKey(2)), Some(&21));
}

#[test]
fn snapshot_is_an_independent_copy() {
    let mut store = TypedStateStore::new();
    store.seed(TypeKey(3), Counter { count: 0 });
    let snapshot = store.snapshot(TypeKey(3)).unwrap();
    assert_eq!(*snapshot, Counter { count: 0 });
    store.seed(TypeKey(3), Counter { count: 5 });
    assert_eq!(*snapshot, Counter { count: 0 });
    assert_eq!(*store.snapshot(TypeKey(3)).unwrap(), Counter { count: 5 });
    assert_eq!(snapshot.count, 0);
    let again = snapshot.clone();
    assert_eq!(again, snapshot);
}

#[test]
fn type_keys_compare_by_their_number() {
    assert_eq!(TypeKey(4), TypeKey(4));
    assert_ne!(TypeKey(4), TypeKey(5));
}
