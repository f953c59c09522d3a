//! Observable values: observers told of every new value, values computed
//! from a function, and subjects that keep the last value pushed.

use vstd::prelude::*;
use std::marker::PhantomData;
use std::sync::Arc;

verus! {

/// Errors of observables.
#[derive(Debug, Clone, Copy, PartialEq, Eq, Structural)]
pub enum ObservableError {
    ObserverNotFound,
    Disposed,
}

/// The identity of a subscription.
#[derive(Debug, Clone, Copy, PartialEq, Eq, Hash, Structural)]
pub struct ObserverId(usize);

impl ObserverId {
    /// The number of the subscription.
    pub closed spec fn index(self) -> usize {
        self.0
    }
}

/// Something told of new values.
trait Observer<T> {
    fn notify(&self, value: &T);
}

/// An observer made of a function.
#[verifier::reject_recursive_types(T)]
struct FnObserver<T, F: Fn(&T)> {
    func: F,
    marker: PhantomData<T>,
}

impl<T, F: Fn(&T)> FnObserver<T, F> {
    #[verifier::type_invariant]
    spec fn accepts_all(self) -> bool {
        forall|v: &T| call_requires(self.func, (v,))
    }
}

impl<T, F: Fn(&T)> Observer<T> for FnObserver<T, F> {
    fn notify(&self, value: &T) {
        proof {
            use_type_invariant(self);
        }
        (self.func)(value)
    }
}

/// One subscribed observer.
#[verifier::reject_recursive_types(T)]
struct ObserverSlot<T> {
    id: usize,
    observer: Box<dyn Observer<T>>,
}

/// `func` as a subscribed observer numbered `id`.
fn observer_slot<T: 'static, F: Fn(&T) + 'static>(id: usize, func: F) -> (r: ObserverSlot<T>)
    requires
        forall|v: &T| call_requires(func, (v,)),
    ensures
        r.id == id,
{
    ObserverSlot { id, observer: Box::new(FnObserver { func, marker: PhantomData }) }
}

/// Append an observer.
fn push_slot<T>(v: &mut Vec<ObserverSlot<T>>, slot: ObserverSlot<T>)
    ensures
        final(v)@ == old(v)@.push(slot),
{
    v.push(slot);
}

/// Tell every observer of `value`, in the order they subscribed.
fn notify_all<T>(observers: &Vec<ObserverSlot<T>>, value: &T) {
    let mut i: usize = 0;
    while i < observers.len()
        invariant
            i <= observers@.len(),
        decreases observers@.len() - i,
    {
        observers[i].observer.notify(value);
        i = i + 1;
    }
}

/// The subscription numbers of a list of observers.
spec fn slot_ids<T>(s: Seq<ObserverSlot<T>>) -> Seq<usize> {
    s.map_values(|o: ObserverSlot<T>| o.id)
}

/// A value whose observers are told of every new value.
#[verifier::reject_recursive_types(T)]
pub struct Observable<T> {
    value: T,
    observers: Vec<ObserverSlot<T>>,
    next_id: usize,
}

impl<T> Observable<T> {
    /// The current value.
    pub closed spec fn current(&self) -> T {
        self.value
    }

    /// The subscription numbers of the observers, in subscription order.
    pub closed spec fn observer_ids(&self) -> Seq<usize> {
        slot_ids(self.observers@)
    }

    /// The number the next subscription gets.
    pub closed spec fn next_id(&self) -> usize {
        self.next_id
    }

    /// Subscription numbers increase and stay below the next one.
    pub closed spec fn wf(&self) -> bool {
        &&& forall|a: int, b: int|
            0 <= a < b < self.observer_ids().len() ==> self.observer_ids()[a] < self.observer_ids()[b]
        &&& forall|a: int| 0 <= a < self.observer_ids().len() ==> self.observer_ids()[a] < self.next_id
    }

    /// An observable holding `value`, without observers.
    pub fn new(value: T) -> (r: Self)
        ensures
            r.wf(),
            r.current() == value,
            r.observer_ids() == Seq::<usize>::empty(),
            r.next_id() == 0,
    {
        let r = Observable { value, observers: Vec::new(), next_id: 0 };
        assert(r.observer_ids() =~= Seq::<usize>::empty());
        r
    }

    /// A copy of the current value.
    pub fn get(&self) -> (r: T)
        where T: Clone,
        ensures
            cloned(self.current(), r),
    {
        self.value.clone()
    }

    /// Replace the value and tell every observer.
    pub fn set(&mut self, value: T)
        ensures
            final(self).current() == value,
            final(self).observer_ids() == old(self).observer_ids(),
            final(self).next_id() == old(self).next_id(),
            old(self).wf() ==> final(self).wf(),
    {
        self.value = value;
        notify_all(&self.observers, &self.value);
    }

    /// Change the value in place with `f`, then tell every observer.
    pub fn update<F: FnOnce(&mut T)>(&mut self, f: F)
        requires
            forall|v: &mut T| call_requires(f, (v,)),
        ensures
            exists|v: &mut T| *v == old(self).current() && *final(v) == final(self).current() && call_ensures(f, (v,), ()),
            final(self).observer_ids() == old(self).observer_ids(),
            final(self).next_id() == old(self).next_id(),
            old(self).wf() ==> final(self).wf(),
    {
        let ghost ids = self.observer_ids();
        let ghost n = self.next_id;
        f(&mut self.value);
        assert(self.observer_ids() == ids);
        assert(self.next_id == n);
        notify_all(&self.observers, &self.value);
    }

    /// Subscribe `observer`; its subscription number.
    pub fn subscribe<F: Fn(&T) + 'static>(&mut self, observer: F) -> (r: ObserverId)
        where T: 'static,
        requires
            old(self).wf(),
            old(self).next_id() < usize::MAX,
            forall|v: &T| call_requires(observer, (v,)),
        ensures
            final(self).wf(),
            r.index() == old(self).next_id(),
            final(self).next_id() == old(self).next_id() + 1,
            final(self).observer_ids() == old(self).observer_ids().push(r.index()),
            final(self).current() == old(self).current(),
    {
        let id = self.next_id;
        self.next_id = self.next_id + 1;
        push_slot(&mut self.observers, observer_slot(id, observer));
        proof {
            assert(self.observer_ids() =~= old(self).observer_ids().push(id));
        }
        ObserverId(id)
    }

    /// Drop the subscription `id`; whether there was one.
    pub fn unsubscribe(&mut self, id: ObserverId) -> (r: bool)
        requires
            old(self).wf(),
        ensures
            final(self).wf(),
            r == old(self).observer_ids().contains(id.index()),
            r ==> final(self).observer_ids() == old(self).observer_ids().remove(
                old(self).observer_ids().index_of(id.index()),
            ),
            !r ==> final(self).observer_ids() == old(self).observer_ids(),
            !final(self).observer_ids().contains(id.index()),
            final(self).next_id() == old(self).next_id(),
            final(self).current() == old(self).current(),
    {
        let ghost ids = self.observer_ids();
        let mut i: usize = 0;
        while i < self.observers.len()
            invariant
                ids == slot_ids(self.observers@),
                ids == old(self).observer_ids(),
                self.next_id == old(self).next_id,
                self.value == old(self).value,
                forall|a: int, b: int| 0 <= a < b < ids.len() ==> ids[a] < ids[b],
                forall|a: int| 0 <= a < ids.len() ==> ids[a] < self.next_id,
                i <= self.observers@.len(),
                forall|j: int| 0 <= j < i ==> ids[j] != id.0,
            decreases self.observers@.len() - i,
        {
            assert(ids[i as int] == self.observers@[i as int].id);
            if self.observers[i].id == id.0 {
                self.observers.remove(i);
                proof {
                    assert(ids.contains(id.0));
                    let k = ids.index_of(id.0);
                    if k < i {
                        assert(ids[k] == id.0);
                    }
                    if k > i {
                        assert(ids[i as int] < ids[k]);
                    }
                    assert(k == i);
                    assert(self.observer_ids() =~= ids.remove(i as int));
                    assert forall|j: int| 0 <= j < self.observer_ids().len() implies self.observer_ids()[j]
                        != id.0 by {
                        let o = if j < i { j } else { j + 1 };
                        assert(self.observer_ids()[j] == ids[o]);
                        if o > i {
                            assert(ids[i as int] < ids[o]);
                        }
                    }
                    assert forall|a: int, b: int|
                        0 <= a < b < self.observer_ids().len() implies self.observer_ids()[a]
                        < self.observer_ids()[b] by {
                        let oa = if a < i { a } else { a + 1 };
                        let ob = if b < i { b } else { b + 1 };
                        assert(self.observer_ids()[a] == ids[oa]);
                        assert(self.observer_ids()[b] == ids[ob]);
                    }
                    assert forall|a: int| 0 <= a < self.observer_ids().len() implies self.observer_ids()[a]
                        < self.next_id by {
                        let oa = if a < i { a } else { a + 1 };
                        assert(self.observer_ids()[a] == ids[oa]);
                    }
                }
                return true;
            }
            i = i + 1;
        }
        false
    }

    /// The number of observers.
    pub fn observer_count(&self) -> (r: usize)
        ensures
            r == self.observer_ids().len(),
    {
        self.observers.len()
    }
}

impl<T: Default> Default for Observable<T> {
    fn default() -> (r: Self)
        ensures
            r.wf(),
            r.observer_ids() == Seq::<usize>::empty(),
            r.next_id() == 0,
    {
        Observable::new(T::default())
    }
}

/// A shared observable.
pub type SharedObservable<T> = Arc<Observable<T>>;

/// A shared observable holding `value`.
pub fn observable<T>(value: T) -> (r: SharedObservable<T>)
    ensures
        r.current() == value,
        r.observer_ids() == Seq::<usize>::empty(),
{
    Arc::new(Observable::new(value))
}

/// Something that computes a value.
trait Computation<T> {
    fn run(&self) -> T;
}

/// A computation made of a function.
#[verifier::reject_recursive_types(T)]
struct FnComputation<T, F: Fn() -> T> {
    func: F,
    marker: PhantomData<T>,
}

impl<T, F: Fn() -> T> FnComputation<T, F> {
    #[verifier::type_invariant]
    spec fn callable(self) -> bool {
        call_requires(self.func, ())
    }
}

impl<T, F: Fn() -> T> Computation<T> for FnComputation<T, F> {
    fn run(&self) -> T {
        proof {
            use_type_invariant(self);
        }
        (self.func)()
    }
}

/// A value computed by a function, computed again on request.
#[verifier::reject_recursive_types(T)]
pub struct Computed<T> {
    value: T,
    compute: Box<dyn Computation<T>>,
}

/// `c`, boxed.
fn boxed_computation<T, C: Computation<T> + 'static>(c: C) -> Box<dyn Computation<T>> {
    Box::new(c)
}

impl<T> Computed<T> {
    /// The current value.
    pub closed spec fn current(&self) -> T {
        self.value
    }

    /// A value computed by `compute` now.
    pub fn new<F: Fn() -> T + 'static>(compute: F) -> (r: Self)
        where T: 'static,
        requires
            call_requires(compute, ()),
        ensures
            call_ensures(compute, (), r.current()),
    {
        let value = compute();
        let c = FnComputation { func: compute, marker: PhantomData };
        Computed { value, compute: boxed_computation(c) }
    }

    /// A copy of the current value.
    pub fn get(&self) -> (r: T)
        where T: Clone,
        ensures
            cloned(self.current(), r),
    {
        self.value.clone()
    }

    /// Compute the value again.
    pub fn recompute(&mut self) {
        self.value = self.compute.run();
    }
}

/// Keeps the last value pushed and tells its observers of each one.
#[verifier::reject_recursive_types(T)]
pub struct Subject<T> {
    value: Option<T>,
    observers: Vec<ObserverSlot<T>>,
}

impl<T> Subject<T> {
    /// The last value pushed.
    pub closed spec fn last(&self) -> Option<T> {
        self.value
    }

    /// The number of observers.
    pub closed spec fn observer_total(&self) -> nat {
        self.observers@.len()
    }

    /// No value yet, no observers.
    pub fn new() -> (r: Self)
        ensures
            r.last() is None,
            r.observer_total() == 0,
    {
        Subject { value: None, observers: Vec::new() }
    }

    /// Holding `value`, no observers.
    pub fn with_value(value: T) -> (r: Self)
        ensures
            r.last() == Some(value),
            r.observer_total() == 0,
    {
        Subject { value: Some(value), observers: Vec::new() }
    }

    /// Keep `value` and tell every observer.
    pub fn next(&mut self, value: T)
        ensures
            final(self).last() == Some(value),
            final(self).observer_total() == old(self).observer_total(),
    {
        self.value = Some(value);
        match &self.value {
            Some(v) => notify_all(&self.observers, v),
            None => {},
        }
    }

    /// Subscribe `observer` to the values pushed from now on.
    pub fn subscribe<F: Fn(&T) + 'static>(&mut self, observer: F)
        where T: 'static,
        requires
            forall|v: &T| call_requires(observer, (v,)),
        ensures
            final(self).last() == old(self).last(),
            final(self).observer_total() == old(self).observer_total() + 1,
    {
        push_slot(&mut self.observers, observer_slot(0, observer));
    }

    /// A copy of the last value pushed.
    pub fn value(&self) -> (r: Option<T>)
        where T: Clone,
        ensures
            r is Some <==> self.last() is Some,
            r matches Some(x) ==> cloned(self.last()->0, x),
    {
        match &self.value {
            Some(v) => Some(v.clone()),
            None => None,
        }
    }
}

impl<T> Default for Subject<T> {
    fn default() -> (r: Self)
        ensures
            r.last() is None,
            r.observer_total() == 0,
    {
        Subject::new()
    }
}

/// Holds a current value; pushing replaces it.
pub struct BehaviorSubject<T: Clone> {
    value: T,
}

impl<T: Clone> BehaviorSubject<T> {
    /// The current value.
    pub closed spec fn current(&self) -> T {
        self.value
    }

    /// Holding `initial`.
    pub fn new(initial: T) -> (r: Self)
        ensures
            r.current() == initial,
    {
        BehaviorSubject { value: initial }
    }

    /// Replace the value.
    pub fn next(&mut self, value: T)
        ensures
            final(self).current() == value,
    {
        self.value = value;
    }

    /// A copy of the current value.
    pub fn value(&self) -> (r: T)
        ensures
            cloned(self.current(), r),
    {
        self.value.clone()
    }
}

} // verus!
