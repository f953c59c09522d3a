//! The memento pattern: captured states, a bounded caretaker, an undo/redo
//! state manager and a bounded snapshot store.

use vstd::prelude::*;
use std::collections::VecDeque;
use std::time::{Duration, Instant};
use crate::clock::{instant_elapsed, instant_now};
use crate::text::{str_eq, to_owned_string};

verus! {

/// Errors of the memento helpers.
#[derive(Debug, Clone, PartialEq, Eq)]
pub enum MementoError {
    NoMemento,
    RestoreFailed(String),
    Invalid,
}

/// The last `n` elements of `s` (all of them when there are fewer).
pub open spec fn keep_last<A>(s: Seq<A>, n: nat) -> Seq<A> {
    if s.len() > n {
        s.skip(s.len() - n)
    } else {
        s
    }
}

/// A captured state, with the time of capture and an optional label.
pub struct Memento<S: Clone> {
    state: S,
    timestamp: Instant,
    label: Option<String>,
}

impl<S: Clone> Clone for Memento<S> {
    fn clone(&self) -> (r: Self)
        ensures
            cloned(self.state_of(), r.state_of()),
            r.label_of() == self.label_of(),
    {
        let label = match &self.label {
            Some(l) => Some(l.clone()),
            None => None,
        };
        Memento { state: self.state.clone(), timestamp: self.timestamp, label }
    }
}

impl<S: Clone> Memento<S> {
    /// The captured state.
    pub closed spec fn state_of(&self) -> S {
        self.state
    }

    /// The label's characters, if any.
    pub closed spec fn label_of(&self) -> Option<Seq<char>> {
        match self.label {
            Some(l) => Some(l@),
            None => None,
        }
    }

    /// Capture a state without a label.
    pub fn new(state: S) -> (r: Self)
        ensures
            r.state_of() == state,
            r.label_of() is None,
    {
        Memento { state, timestamp: instant_now(), label: None }
    }

    /// Capture a state with a label.
    pub fn with_label(state: S, label: &str) -> (r: Self)
        ensures
            r.state_of() == state,
            r.label_of() == Some(label@),
    {
        Memento { state, timestamp: instant_now(), label: Some(to_owned_string(label)) }
    }

    /// The captured state, by reference.
    pub fn state(&self) -> (r: &S)
        ensures
            *r == self.state_of(),
    {
        &self.state
    }

    /// The captured state, moved out.
    pub fn into_state(self) -> (r: S)
        ensures
            r == self.state_of(),
    {
        self.state
    }

    /// When the state was captured.
    pub fn timestamp(&self) -> Instant {
        self.timestamp
    }

    /// How long ago the state was captured.
    pub fn age(&self) -> Duration {
        instant_elapsed(&self.timestamp)
    }

    /// The label, if any.
    pub fn label(&self) -> (r: Option<&str>)
        ensures
            r is Some <==> self.label_of() is Some,
            r matches Some(l) ==> self.label_of() == Some(l@),
    {
        match &self.label {
            Some(l) => Some(l.as_str()),
            None => None,
        }
    }
}

/// Objects that can save and restore their own state.
pub trait Originator: Clone {
    /// A memento of a copy of the current state.
    fn save(&self) -> (r: Memento<Self>)
        ensures
            cloned(*self, r.state_of()),
            r.label_of() is None,
    {
        Memento::new(self.clone())
    }

    /// Become a copy of the memento's state.
    fn restore(&mut self, memento: &Memento<Self>)
        ensures
            cloned(memento.state_of(), *final(self)),
    {
        *self = memento.state().clone();
    }
}

impl<T: Clone> Originator for T {
}

/// Append `m`, then drop the oldest entries beyond `max`.
fn push_bounded<S: Clone>(q: &mut VecDeque<Memento<S>>, m: Memento<S>, max: usize)
    ensures
        final(q)@ == keep_last(old(q)@.push(m), max as nat),
{
    let ghost pushed = q@.push(m);
    q.push_back(m);
    while q.len() > max
        invariant
            q@ == keep_last(pushed, q@.len()),
            q@.len() <= pushed.len(),
            pushed.len() <= max ==> q@.len() == pushed.len(),
            pushed.len() > max ==> q@.len() >= max,
        decreases q@.len(),
    {
        q.pop_front();
        assert(q@ =~= keep_last(pushed, q@.len()));
    }
    assert(q@ =~= keep_last(pushed, max as nat));
}

/// Keeps the most recent mementos, at most `max_size` of them, oldest first.
pub struct Caretaker<S: Clone> {
    mementos: VecDeque<Memento<S>>,
    max_size: usize,
}

impl<S: Clone> Caretaker<S> {
    /// The stored mementos, oldest first.
    pub closed spec fn items(&self) -> Seq<Memento<S>> {
        self.mementos@
    }

    /// The capacity.
    pub closed spec fn capacity(&self) -> usize {
        self.max_size
    }

    /// The caretaker never holds more than its capacity.
    pub closed spec fn wf(&self) -> bool {
        self.mementos@.len() <= self.max_size
    }

    /// An empty caretaker keeping at most `max_size` mementos.
    pub fn new(max_size: usize) -> (r: Self)
        ensures
            r.wf(),
            r.items() == Seq::<Memento<S>>::empty(),
            r.capacity() == max_size,
    {
        Caretaker { mementos: VecDeque::new(), max_size }
    }

    /// Store a memento, dropping the oldest ones beyond the capacity.
    pub fn save(&mut self, memento: Memento<S>)
        requires
            old(self).wf(),
        ensures
            final(self).wf(),
            final(self).capacity() == old(self).capacity(),
            final(self).items() == keep_last(old(self).items().push(memento), old(self).capacity() as nat),
    {
        push_bounded(&mut self.mementos, memento, self.max_size);
    }

    /// The newest memento.
    pub fn latest(&self) -> (r: Option<&Memento<S>>)
        ensures
            r is None <==> self.items().len() == 0,
            r matches Some(m) ==> *m == self.items().last(),
    {
        let n = self.mementos.len();
        if n == 0 {
            None
        } else {
            Some(&self.mementos[n - 1])
        }
    }

    /// Remove and return the newest memento.
    pub fn pop(&mut self) -> (r: Option<Memento<S>>)
        requires
            old(self).wf(),
        ensures
            final(self).wf(),
            final(self).capacity() == old(self).capacity(),
            r is None <==> old(self).items().len() == 0,
            r is None ==> final(self).items() == old(self).items(),
            r matches Some(m) ==> m == old(self).items().last() && final(self).items()
                == old(self).items().drop_last(),
    {
        self.mementos.pop_back()
    }

    /// The memento at `index`, oldest first.
    pub fn get(&self, index: usize) -> (r: Option<&Memento<S>>)
        ensures
            r is None <==> index >= self.items().len(),
            r matches Some(m) ==> *m == self.items()[index as int],
    {
        if index < self.mementos.len() {
            Some(&self.mementos[index])
        } else {
            None
        }
    }

    /// The newest memento carrying `label`.
    pub fn find_by_label(&self, label: &str) -> (r: Option<&Memento<S>>)
        ensures
            r is None <==> (forall|i: int|
                0 <= i < self.items().len() ==> #[trigger] self.items()[i].label_of() != Some(
                    label@,
                )),
            r matches Some(m) ==> exists|i: int|
                0 <= i < self.items().len() && *m == self.items()[i] && self.items()[i].label_of()
                    == Some(label@) && forall|j: int|
                    i < j < self.items().len() ==> #[trigger] self.items()[j].label_of() != Some(
                        label@,
                    ),
    {
        let mut i = self.mementos.len();
        while i > 0
            invariant
                i <= self.mementos@.len(),
                forall|j: int|
                    i <= j < self.mementos@.len() ==> #[trigger] self.mementos@[j].label_of()
                        != Some(label@),
            decreases i,
        {
            i = i - 1;
            let m = &self.mementos[i];
            let hit = match m.label() {
                Some(l) => str_eq(l, label),
                None => false,
            };
            if hit {
                return Some(m);
            }
        }
        None
    }

    /// Number of stored mementos.
    pub fn len(&self) -> (r: usize)
        ensures
            r == self.items().len(),
    {
        self.mementos.len()
    }

    /// Whether nothing is stored.
    pub fn is_empty(&self) -> (r: bool)
        ensures
            r == (self.items().len() == 0),
    {
        self.mementos.len() == 0
    }

    /// Remove every memento.
    pub fn clear(&mut self)
        ensures
            final(self).wf(),
            final(self).items() == Seq::<Memento<S>>::empty(),
            final(self).capacity() == old(self).capacity(),
    {
        self.mementos.clear();
    }
}

impl<S: Clone> Default for Caretaker<S> {
    fn default() -> (r: Self)
        ensures
            r.wf(),
            r.items() == Seq::<Memento<S>>::empty(),
            r.capacity() == 100,
    {
        Self::new(100)
    }
}

/// Saving into a caretaker never exceeds its capacity, and when it can hold
/// anything the newest memento is the one just saved.
pub proof fn lemma_keep_last_bounded<A>(s: Seq<A>, m: A, n: nat)
    ensures
        keep_last(s.push(m), n).len() <= n,
        n > 0 ==> keep_last(s.push(m), n).last() == m,
        s.len() < n ==> keep_last(s.push(m), n) == s.push(m),
{
}

/// A current state with undo and redo histories.
pub struct StateManager<S: Clone> {
    current: S,
    history: VecDeque<Memento<S>>,
    future: VecDeque<Memento<S>>,
    max_history: usize,
}

impl<S: Clone> StateManager<S> {
    /// The current state.
    pub closed spec fn current_state(&self) -> S {
        self.current
    }

    /// States that `undo` can return to, oldest first.
    pub closed spec fn undo_stack(&self) -> Seq<Memento<S>> {
        self.history@
    }

    /// States that `redo` can return to, the next one last.
    pub closed spec fn redo_stack(&self) -> Seq<Memento<S>> {
        self.future@
    }

    /// How many checkpoints are kept.
    pub closed spec fn history_limit(&self) -> usize {
        self.max_history
    }

    /// The two managers agree on every part of their state.
    pub open spec fn same_as(a: &Self, b: &Self) -> bool {
        &&& a.current_state() == b.current_state()
        &&& a.undo_stack() == b.undo_stack()
        &&& a.redo_stack() == b.redo_stack()
        &&& a.history_limit() == b.history_limit()
    }

    /// `post` is what a successful `undo` makes of `pre`.
    pub open spec fn is_undo_of(pre: &Self, post: &Self) -> bool {
        &&& pre.undo_stack().len() > 0
        &&& post.current_state() == pre.undo_stack().last().state_of()
        &&& post.undo_stack() == pre.undo_stack().drop_last()
        &&& post.redo_stack().len() == pre.redo_stack().len() + 1
        &&& post.redo_stack().drop_last() == pre.redo_stack()
        &&& cloned(pre.current_state(), post.redo_stack().last().state_of())
        &&& post.redo_stack().last().label_of() is None
        &&& post.history_limit() == pre.history_limit()
    }

    /// `post` is what a successful `redo` makes of `pre`.
    pub open spec fn is_redo_of(pre: &Self, post: &Self) -> bool {
        &&& pre.redo_stack().len() > 0
        &&& post.current_state() == pre.redo_stack().last().state_of()
        &&& post.redo_stack() == pre.redo_stack().drop_last()
        &&& post.undo_stack().len() == pre.undo_stack().len() + 1
        &&& post.undo_stack().drop_last() == pre.undo_stack()
        &&& cloned(pre.current_state(), post.undo_stack().last().state_of())
        &&& post.undo_stack().last().label_of() is None
        &&& post.history_limit() == pre.history_limit()
    }

    /// A manager at `initial` with empty histories.
    pub fn new(initial: S, max_history: usize) -> (r: Self)
        ensures
            r.current_state() == initial,
            r.undo_stack() == Seq::<Memento<S>>::empty(),
            r.redo_stack() == Seq::<Memento<S>>::empty(),
            r.history_limit() == max_history,
    {
        StateManager { current: initial, history: VecDeque::new(), future: VecDeque::new(), max_history }
    }

    /// The current state, by reference.
    pub fn current(&self) -> (r: &S)
        ensures
            *r == self.current_state(),
    {
        &self.current
    }

    /// The current state, for modification.
    pub fn current_mut(&mut self) -> (r: &mut S)
        ensures
            *r == old(self).current_state(),
            final(self).current_state() == *final(r),
            final(self).undo_stack() == old(self).undo_stack(),
            final(self).redo_stack() == old(self).redo_stack(),
            final(self).history_limit() == old(self).history_limit(),
    {
        &mut self.current
    }

    /// Save a copy of the current state as an undo point.
    pub fn checkpoint(&mut self)
        ensures
            final(self).current_state() == old(self).current_state(),
            final(self).history_limit() == old(self).history_limit(),
            final(self).redo_stack() == Seq::<Memento<S>>::empty(),
            exists|m: Memento<S>|
                cloned(old(self).current_state(), m.state_of()) && m.label_of() is None
                    && final(self).undo_stack() == keep_last(
                    old(self).undo_stack().push(m),
                    old(self).history_limit() as nat,
                ),
    {
        self.checkpoint_labeled(None);
    }

    /// Save a copy of the current state as an undo point with an optional label.
    pub fn checkpoint_labeled(&mut self, label: Option<&str>)
        ensures
            final(self).current_state() == old(self).current_state(),
            final(self).history_limit() == old(self).history_limit(),
            final(self).redo_stack() == Seq::<Memento<S>>::empty(),
            exists|m: Memento<S>|
                cloned(old(self).current_state(), m.state_of()) && m.label_of() == (match label {
                    Some(l) => Some(l@),
                    None => None,
                }) && final(self).undo_stack() == keep_last(
                    old(self).undo_stack().push(m),
                    old(self).history_limit() as nat,
                ),
    {
        let copy = self.current.clone();
        let memento = match label {
            Some(l) => Memento::with_label(copy, l),
            None => Memento::new(copy),
        };
        push_bounded(&mut self.history, memento, self.max_history);
        self.future.clear();
    }

    /// Move to `state`, saving the current one as an undo point.
    pub fn set(&mut self, state: S)
        ensures
            final(self).current_state() == state,
            final(self).history_limit() == old(self).history_limit(),
            final(self).redo_stack() == Seq::<Memento<S>>::empty(),
            exists|m: Memento<S>|
                cloned(old(self).current_state(), m.state_of()) && m.label_of() is None
                    && final(self).undo_stack() == keep_last(
                    old(self).undo_stack().push(m),
                    old(self).history_limit() as nat,
                ),
    {
        self.checkpoint();
        self.current = state;
    }

    /// Return to the last undo point; `Err(NoMemento)` when there is none.
    pub fn undo(&mut self) -> (r: Result<(), MementoError>)
        ensures
            r is Err <==> old(self).undo_stack().len() == 0,
            r matches Err(e) ==> e == MementoError::NoMemento && Self::same_as(&*old(self), &*final(self)),
            r is Ok ==> Self::is_undo_of(&*old(self), &*final(self)),
    {
        match self.history.pop_back() {
            None => Err(MementoError::NoMemento),
            Some(prev) => {
                let ghost before = self.future@;
                let current_memento = Memento::new(self.current.clone());
                self.future.push_back(current_memento);
                self.current = prev.into_state();
                assert(self.future@.drop_last() =~= before);
                assert(self.history@ =~= old(self).history@.drop_last());
                Ok(())
            },
        }
    }

    /// Go forward to the last undone state; `Err(NoMemento)` when there is none.
    pub fn redo(&mut self) -> (r: Result<(), MementoError>)
        ensures
            r is Err <==> old(self).redo_stack().len() == 0,
            r matches Err(e) ==> e == MementoError::NoMemento && Self::same_as(&*old(self), &*final(self)),
            r is Ok ==> Self::is_redo_of(&*old(self), &*final(self)),
    {
        match self.future.pop_back() {
            None => Err(MementoError::NoMemento),
            Some(next) => {
                let ghost before = self.history@;
                let current_memento = Memento::new(self.current.clone());
                self.history.push_back(current_memento);
                self.current = next.into_state();
                assert(self.history@.drop_last() =~= before);
                assert(self.future@ =~= old(self).future@.drop_last());
                Ok(())
            },
        }
    }

    /// Whether there is something to undo.
    pub fn can_undo(&self) -> (r: bool)
        ensures
            r == (self.undo_stack().len() > 0),
    {
        self.history.len() != 0
    }

    /// Whether there is something to redo.
    pub fn can_redo(&self) -> (r: bool)
        ensures
            r == (self.redo_stack().len() > 0),
    {
        self.future.len() != 0
    }

    /// Number of undo points.
    pub fn history_len(&self) -> (r: usize)
        ensures
            r == self.undo_stack().len(),
    {
        self.history.len()
    }

    /// Number of redo points.
    pub fn redo_len(&self) -> (r: usize)
        ensures
            r == self.redo_stack().len(),
    {
        self.future.len()
    }

    /// Move to `state` and forget both histories.
    pub fn reset(&mut self, state: S)
        ensures
            final(self).current_state() == state,
            final(self).undo_stack() == Seq::<Memento<S>>::empty(),
            final(self).redo_stack() == Seq::<Memento<S>>::empty(),
            final(self).history_limit() == old(self).history_limit(),
    {
        self.current = state;
        self.history.clear();
        self.future.clear();
    }
}

/// Redo right after undo brings back a copy of the state that was current
/// before the undo, and restores both histories up to copying.
pub proof fn lemma_undo_then_redo<S: Clone>(a: StateManager<S>, b: StateManager<S>, c: StateManager<S>)
    requires
        StateManager::is_undo_of(&a, &b),
        StateManager::is_redo_of(&b, &c),
    ensures
        cloned(a.current_state(), c.current_state()),
        c.redo_stack() == a.redo_stack(),
        c.undo_stack().len() == a.undo_stack().len(),
        c.undo_stack().drop_last() == a.undo_stack().drop_last(),
        cloned(a.undo_stack().last().state_of(), c.undo_stack().last().state_of()),
{
}

/// After an undo there is always something to redo, and after a redo
/// something to undo.
pub proof fn lemma_undo_enables_redo<S: Clone>(a: StateManager<S>, b: StateManager<S>)
    ensures
        StateManager::is_undo_of(&a, &b) ==> b.redo_stack().len() > 0,
        StateManager::is_redo_of(&a, &b) ==> b.undo_stack().len() > 0,
{
}

/// Periodic snapshots, at most `max_snapshots` of them, oldest first.
pub struct SnapshotStore<S: Clone> {
    snapshots: VecDeque<Memento<S>>,
    max_snapshots: usize,
}

impl<S: Clone> SnapshotStore<S> {
    /// The stored snapshots, oldest first.
    pub closed spec fn items(&self) -> Seq<Memento<S>> {
        self.snapshots@
    }

    /// The capacity.
    pub closed spec fn capacity(&self) -> usize {
        self.max_snapshots
    }

    /// An empty store keeping at most `max_snapshots` snapshots.
    pub fn new(max_snapshots: usize) -> (r: Self)
        ensures
            r.items() == Seq::<Memento<S>>::empty(),
            r.capacity() == max_snapshots,
    {
        SnapshotStore { snapshots: VecDeque::new(), max_snapshots }
    }

    /// Store a copy of `state`.
    pub fn snapshot(&mut self, state: &S)
        ensures
            final(self).capacity() == old(self).capacity(),
            exists|m: Memento<S>|
                cloned(*state, m.state_of()) && m.label_of() is None && final(self).items()
                    == keep_last(old(self).items().push(m), old(self).capacity() as nat),
    {
        self.snapshot_labeled(state, None);
    }

    /// Store a copy of `state` with an optional label.
    pub fn snapshot_labeled(&mut self, state: &S, label: Option<&str>)
        ensures
            final(self).capacity() == old(self).capacity(),
            exists|m: Memento<S>|
                cloned(*state, m.state_of()) && m.label_of() == (match label {
                    Some(l) => Some(l@),
                    None => None,
                }) && final(self).items() == keep_last(
                    old(self).items().push(m),
                    old(self).capacity() as nat,
                ),
    {
        let copy = state.clone();
        let memento = match label {
            Some(l) => Memento::with_label(copy, l),
            None => Memento::new(copy),
        };
        push_bounded(&mut self.snapshots, memento, self.max_snapshots);
    }

    /// The newest snapshot.
    pub fn latest(&self) -> (r: Option<&Memento<S>>)
        ensures
            r is None <==> self.items().len() == 0,
            r matches Some(m) ==> *m == self.items().last(),
    {
        let n = self.snapshots.len();
        if n == 0 {
            None
        } else {
            Some(&self.snapshots[n - 1])
        }
    }

    /// The snapshot at `index`, oldest first.
    pub fn get(&self, index: usize) -> (r: Option<&Memento<S>>)
        ensures
            r is None <==> index >= self.items().len(),
            r matches Some(m) ==> *m == self.items()[index as int],
    {
        if index < self.snapshots.len() {
            Some(&self.snapshots[index])
        } else {
            None
        }
    }

    /// All snapshots, oldest first.
    pub fn all(&self) -> (r: &VecDeque<Memento<S>>)
        ensures
            r@ == self.items(),
    {
        &self.snapshots
    }

    /// Number of snapshots.
    pub fn len(&self) -> (r: usize)
        ensures
            r == self.items().len(),
    {
        self.snapshots.len()
    }

    /// Whether nothing is stored.
    pub fn is_empty(&self) -> (r: bool)
        ensures
            r == (self.items().len() == 0),
    {
        self.snapshots.len() == 0
    }

    /// Remove every snapshot.
    pub fn clear(&mut self)
        ensures
            final(self).items() == Seq::<Memento<S>>::empty(),
            final(self).capacity() == old(self).capacity(),
    {
        self.snapshots.clear();
    }
}

impl<S: Clone> Default for SnapshotStore<S> {
    fn default() -> (r: Self)
        ensures
            r.items() == Seq::<Memento<S>>::empty(),
            r.capacity() == 10,
    {
        Self::new(10)
    }
}

} // verus!
