use drbot::memento::{Caretaker, Memento, MementoError, Originator, SnapshotStore, StateManager};

#[test]
fn test_memento() {
    let memento = Memento::with_label(42, "answer");
    assert_eq!(*memento.state(), 42);
    assert_eq!(memento.label(), Some("answer"));
}

#[test]
fn test_caretaker() {
    let mut caretaker = Caretaker::new(3);

    caretaker.save(Memento::new(1));
    caretaker.save(Memento::new(2));
    caretaker.save(Memento::new(3));
    caretaker.save(Memento::new(4)); // 1 should be removed

    assert_eq!(caretaker.len(), 3);
    assert_eq!(*caretaker.get(0).unwrap().state(), 2);
    assert_eq!(*caretaker.latest().unwrap().state(), 4);
}

#[test]
fn test_state_manager() {
    let mut manager = StateManager::new("initial".to_string(), 10);

    manager.set("first".to_string());
    manager.set("second".to_string());
    manager.set("third".to_string());

    assert_eq!(manager.current(), "third");

    manager.undo().unwrap();
    assert_eq!(manager.current(), "second");

    manager.redo().unwrap();
    assert_eq!(manager.current(), "third");
}

#[test]
fn test_snapshot_store() {
    let mut store = SnapshotStore::new(5);

    store.snapshot(&vec![1, 2, 3]);
    store.snapshot_labeled(&vec![4, 5, 6], Some("checkpoint"));

    assert_eq!(store.len(), 2);
    assert_eq!(store.latest().unwrap().state(), &vec![4, 5, 6]);
}

#[test]
fn memento_undo_redo_edges() {
    let mut manager = StateManager::new(0, 2);
    assert_eq!(manager.undo().unwrap_err(), MementoError::NoMemento);
    assert_eq!(manager.redo().unwrap_err(), MementoError::NoMemento);
    manager.set(1);
    manager.set(2);
    manager.set(3);
    // only two undo points are kept
    assert_eq!(manager.history_len(), 2);
    manager.undo().unwrap();
    assert!(manager.can_redo());
    assert_eq!(manager.redo_len(), 1);
    // a new state clears the redo history
    manager.set(9);
    assert!(!manager.can_redo());
    *manager.current_mut() += 1;
    assert_eq!(*manager.current(), 10);
    manager.checkpoint_labeled(Some("ten"));
    manager.reset(5);
    assert!(!manager.can_undo());
    assert_eq!(*manager.current(), 5);
}

#[test]
fn memento_caretaker_labels_and_pop() {
    let mut caretaker: Caretaker<i32> = Caretaker::default();
    assert!(caretaker.is_empty());
    caretaker.save(Memento::with_label(1, "a"));
    caretaker.save(Memento::with_label(2, "b"));
    caretaker.save(Memento::with_label(3, "a"));
    assert_eq!(*caretaker.find_by_label("a").unwrap().state(), 3);
    assert!(caretaker.find_by_label("z").is_none());
    assert_eq!(*caretaker.pop().unwrap().state(), 3);
    assert_eq!(caretaker.len(), 2);
    assert!(caretaker.get(5).is_none());
    caretaker.clear();
    assert!(caretaker.latest().is_none());
    let mut zero: Caretaker<i32> = Caretaker::new(0);
    zero.save(Memento::new(1));
    assert_eq!(zero.len(), 0);
}

#[test]
fn memento_originator_and_snapshots() {
    let mut value = String::from("v1");
    let saved = value.save();
    value.push_str("-changed");
    value.restore(&saved);
    assert_eq!(value, "v1");
    assert_eq!(saved.label(), None);
    let _ = saved.age();
    let _ = saved.timestamp();
    assert_eq!(saved.clone().into_state(), "v1");
    let mut store: SnapshotStore<u8> = SnapshotStore::default();
    for i in 0..12u8 {
        store.snapshot(&i);
    }
    assert_eq!(store.len(), 10);
    assert_eq!(*store.get(0).unwrap().state(), 2);
    assert_eq!(store.all().len(), 10);
    store.clear();
    assert!(store.is_empty());
}
