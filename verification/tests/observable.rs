use drbot::observable::{observable, BehaviorSubject, Computed, Observable, ObservableError, Subject};
use std::sync::atomic::{AtomicI32, Ordering};
use std::sync::Arc;

#[test]
fn test_observable() {
    let mut obs = Observable::new(0);
    let counter = Arc::new(AtomicI32::new(0));

    let c = counter.clone();
    obs.subscribe(move |v| {
        c.store(*v, Ordering::SeqCst);
    });

    obs.set(42);
    assert_eq!(counter.load(Ordering::SeqCst), 42);
}

#[test]
fn test_unsubscribe() {
    let mut obs = Observable::new(0);
    let counter = Arc::new(AtomicI32::new(0));

    let c = counter.clone();
    let id = obs.subscribe(move |v| {
        c.store(*v, Ordering::SeqCst);
    });

    obs.set(10);
    assert_eq!(counter.load(Ordering::SeqCst), 10);

    obs.unsubscribe(id);
    obs.set(20);
    assert_eq!(counter.load(Ordering::SeqCst), 10);
}

#[test]
fn test_subject() {
    let mut subject = Subject::new();
    let counter = Arc::new(AtomicI32::new(0));

    let c = counter.clone();
    subject.subscribe(move |v| {
        c.store(*v, Ordering::SeqCst);
    });

    subject.next(42);
    assert_eq!(counter.load(Ordering::SeqCst), 42);
    assert_eq!(subject.value(), Some(42));
}

#[test]
fn test_computed() {
    let computed = Computed::new(|| 2 + 2);
    assert_eq!(computed.get(), 4);
}

#[test]
fn observable_ids_update_and_counts() {
    let mut obs: Observable<i32> = Observable::default();
    let total = Arc::new(AtomicI32::new(0));
    let t1 = total.clone();
    let a = obs.subscribe(move |v| {
        t1.fetch_add(*v, Ordering::SeqCst);
    });
    let t2 = total.clone();
    let b = obs.subscribe(move |v| {
        t2.fetch_add(*v * 10, Ordering::SeqCst);
    });
    assert_ne!(a, b);
    assert_eq!(obs.observer_count(), 2);
    obs.update(|v| *v += 3);
    assert_eq!(obs.get(), 3);
    assert_eq!(total.load(Ordering::SeqCst), 33);
    assert!(obs.unsubscribe(a));
    assert!(!obs.unsubscribe(a));
    assert_eq!(obs.observer_count(), 1);
    let shared = observable(5u8);
    assert_eq!(shared.get(), 5);
    assert_ne!(ObservableError::Disposed, ObservableError::ObserverNotFound);
}

#[test]
fn observable_computed_subjects() {
    let cell = Arc::new(AtomicI32::new(1));
    let c = cell.clone();
    let mut computed = Computed::new(move || c.load(Ordering::SeqCst) * 2);
    assert_eq!(computed.get(), 2);
    cell.store(5, Ordering::SeqCst);
    assert_eq!(computed.get(), 2);
    computed.recompute();
    assert_eq!(computed.get(), 10);
    let s: Subject<u8> = Subject::default();
    assert_eq!(s.value(), None);
    let mut s2 = Subject::with_value(7u8);
    assert_eq!(s2.value(), Some(7));
    s2.next(9);
    assert_eq!(s2.value(), Some(9));
    let mut b = BehaviorSubject::new("a".to_string());
    b.next("b".to_string());
    assert_eq!(b.value(), "b");
}
