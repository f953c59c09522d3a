//! Mediators: events delivered to the handlers subscribed under their
//! name, requests routed to the handler registered under a name, and a
//! chat room passing messages between named participants.

use vstd::prelude::*;
use std::marker::PhantomData;
use crate::multimap::{distinct_keys, has_key, key_index, lemma_key_index_unique, remove_key};
use crate::text::{str_eq, string_push_str, to_owned_string};

verus! {

/// Errors of the mediators.
#[derive(Debug, Clone, PartialEq, Eq)]
pub enum MediatorError {
    /// No handler has the name.
    HandlerNotFound(String),
    /// The handler failed; the text says why.
    MediationFailed(String),
    /// The request was not acceptable.
    InvalidRequest,
}

impl MediatorError {
    /// The error's description.
    pub fn message(&self) -> (r: String)
        ensures
            r@ == match self {
                MediatorError::HandlerNotFound(s) => "Handler not found: "@ + s@,
                MediatorError::MediationFailed(s) => "Mediation failed: "@ + s@,
                MediatorError::InvalidRequest => "Invalid request"@,
            },
    {
        let mut out = String::new();
        match self {
            MediatorError::HandlerNotFound(s) => {
                string_push_str(&mut out, "Handler not found: ");
                string_push_str(&mut out, s.as_str());
            },
            MediatorError::MediationFailed(s) => {
                string_push_str(&mut out, "Mediation failed: ");
                string_push_str(&mut out, s.as_str());
            },
            MediatorError::InvalidRequest => {
                string_push_str(&mut out, "Invalid request");
            },
        }
        out
    }
}

/// Something that answers requests of type `R` with values of type `T`.
pub trait RequestHandler<R, T> {
    /// `r` is an answer the handler may give to `request`.
    spec fn answers(&self, request: R, r: Result<T, MediatorError>) -> bool;

    /// The answer to `request`.
    fn handle(&self, request: R) -> (r: Result<T, MediatorError>)
        ensures
            self.answers(request, r);
}

/// A request handler made of a function.
#[verifier::reject_recursive_types(R)]
#[verifier::reject_recursive_types(T)]
pub struct FnHandler<R, T, F: Fn(R) -> Result<T, MediatorError>> {
    func: F,
    marker: PhantomData<(R, T)>,
}

impl<R, T, F: Fn(R) -> Result<T, MediatorError>> FnHandler<R, T, F> {
    /// The function accepts every request.
    #[verifier::type_invariant]
    spec fn accepts_all(self) -> bool {
        forall|r: R| call_requires(self.func, (r,))
    }

    /// The function.
    pub closed spec fn function(&self) -> F {
        self.func
    }

    /// A handler answering with `func`.
    pub fn new(func: F) -> (r: Self)
        requires
            forall|req: R| call_requires(func, (req,)),
        ensures
            r.function() == func,
    {
        FnHandler { func, marker: PhantomData }
    }
}

impl<R, T, F: Fn(R) -> Result<T, MediatorError>> RequestHandler<R, T> for FnHandler<R, T, F> {
    open spec fn answers(&self, request: R, r: Result<T, MediatorError>) -> bool {
        call_ensures(self.function(), (request,), r)
    }

    fn handle(&self, request: R) -> (r: Result<T, MediatorError>)
        ensures
            call_ensures(self.function(), (request,), r),
    {
        proof {
            use_type_invariant(self);
        }
        (self.func)(request)
    }
}

/// A request handler made of `func`.
pub fn handler<R, T, F: Fn(R) -> Result<T, MediatorError>>(func: F) -> (r: FnHandler<R, T, F>)
    requires
        forall|req: R| call_requires(func, (req,)),
    ensures
        r.function() == func,
{
    FnHandler::new(func)
}

/// The names of named entries.
pub open spec fn entry_names<A>(s: Seq<(String, A)>) -> Seq<(Seq<char>, ())> {
    s.map_values(|e: (String, A)| (e.0@, ()))
}

/// Position of the entry named `name`.
pub(crate) fn find_name<A>(entries: &Vec<(String, A)>, name: &str) -> (r: Option<usize>)
    requires
        distinct_keys(entry_names(entries@)),
    ensures
        match r {
            Some(i) => i < entries@.len() && has_key(entry_names(entries@), name@) && key_index(
                entry_names(entries@),
                name@,
            ) == i && entries@[i as int].0@ == name@,
            None => !has_key(entry_names(entries@), name@),
        },
{
    let ghost ns = entry_names(entries@);
    let mut i: usize = 0;
    while i < entries.len()
        invariant
            ns == entry_names(entries@),
            distinct_keys(ns),
            i <= entries@.len(),
            forall|j: int| 0 <= j < i ==> (#[trigger] ns[j]).0 != name@,
        decreases entries@.len() - i,
    {
        assert(ns[i as int].0 == entries@[i as int].0@);
        if str_eq(entries[i].0.as_str(), name) {
            proof {
                lemma_key_index_unique(ns, i as int);
            }
            return Some(i);
        }
        i = i + 1;
    }
    None
}

/// The names after setting `name`: a known name keeps its place, a new one
/// goes last.
pub open spec fn put_name(ns: Seq<Seq<char>>, name: Seq<char>) -> Seq<Seq<char>> {
    if ns.contains(name) { ns } else { ns.push(name) }
}

/// The names by themselves.
pub open spec fn names_of<A>(s: Seq<(String, A)>) -> Seq<Seq<char>> {
    s.map_values(|e: (String, A)| e.0@)
}

/// Set the value under `name`: replace it where the name is known, else
/// add it last.
pub(crate) fn put_named<A>(entries: &mut Vec<(String, A)>, name: &str, value: A)
    requires
        distinct_keys(entry_names(old(entries)@)),
    ensures
        distinct_keys(entry_names(final(entries)@)),
        names_of(final(entries)@) == put_name(names_of(old(entries)@), name@),
        has_key(entry_names(final(entries)@), name@),
        final(entries)@[key_index(entry_names(final(entries)@), name@)].1 == value,
        forall|j: int| 0 <= j < old(entries)@.len() && old(entries)@[j].0@ != name@ ==> final(entries)@[j]
            == old(entries)@[j],
{
    let ghost ns = entry_names(entries@);
    let ghost before = names_of(entries@);
    match find_name(entries, name) {
        Some(i) => {
            let key = to_owned_string(name);
            entries.set(i, (key, value));
            proof {
                assert(names_of(entries@) =~= before);
                assert(before.contains(name@)) by {
                    assert(before[i as int] == name@);
                }
                assert(entry_names(entries@) =~= ns);
                lemma_key_index_unique(ns, i as int);
            }
        },
        None => {
            entries.push((to_owned_string(name), value));
            proof {
                let t = entry_names(entries@);
                assert(t =~= ns.push((name@, ())));
                assert(names_of(entries@) =~= before.push(name@));
                assert(!before.contains(name@)) by {
                    if before.contains(name@) {
                        let j = choose|j: int| 0 <= j < before.len() && before[j] == name@;
                        assert(ns[j].0 == name@);
                    }
                }
                assert forall|a: int, b: int| 0 <= a < t.len() && 0 <= b < t.len() && a != b implies t[a].0
                    != t[b].0 by {
                    if a < ns.len() {
                        assert(t[a] == ns[a]);
                    }
                    if b < ns.len() {
                        assert(t[b] == ns[b]);
                    }
                }
                assert(t[ns.len() as int].0 == name@);
                lemma_key_index_unique(t, ns.len() as int);
            }
        },
    }
}

/// Take out the entry named `name`.
fn remove_named<A>(entries: &mut Vec<(String, A)>, name: &str)
    requires
        distinct_keys(entry_names(old(entries)@)),
    ensures
        distinct_keys(entry_names(final(entries)@)),
        entry_names(final(entries)@) == remove_key(entry_names(old(entries)@), name@),
        !has_key(entry_names(final(entries)@), name@),
{
    let ghost ns = entry_names(entries@);
    let ghost before = names_of(entries@);
    match find_name(entries, name) {
        Some(i) => {
            entries.remove(i);
            proof {
                let t = entry_names(entries@);
                assert(t =~= ns.remove(i as int));
                assert forall|a: int, b: int| 0 <= a < t.len() && 0 <= b < t.len() && a != b implies t[a].0
                    != t[b].0 by {
                    let oa = if a < i { a } else { a + 1 };
                    let ob = if b < i { b } else { b + 1 };
                    assert(t[a] == ns[oa]);
                    assert(t[b] == ns[ob]);
                }
                assert forall|j: int| 0 <= j < t.len() implies t[j].0 != name@ by {
                    let o = if j < i { j } else { j + 1 };
                    assert(t[j] == ns[o]);
                }
            }
        },
        None => {
        },
    }
}

/// One registered request handler.
#[verifier::reject_recursive_types(R)]
#[verifier::reject_recursive_types(T)]
struct RequestSlot<R, T> {
    handler: Box<dyn RequestHandler<R, T>>,
}

/// `h` as a registered handler.
fn request_slot<R, T, H: RequestHandler<R, T> + 'static>(h: H) -> RequestSlot<R, T> {
    RequestSlot { handler: Box::new(h) }
}

/// Routes each request to the handler registered under its name.
#[verifier::reject_recursive_types(R)]
#[verifier::reject_recursive_types(T)]
pub struct RequestMediator<R, T> {
    handlers: Vec<(String, RequestSlot<R, T>)>,
}

impl<R, T> RequestMediator<R, T> {
    /// The handler names, in the order first registered.
    pub closed spec fn names(&self) -> Seq<Seq<char>> {
        names_of(self.handlers@)
    }

    /// No name is registered twice.
    pub closed spec fn wf(&self) -> bool {
        distinct_keys(entry_names(self.handlers@))
    }

    /// `r` is an answer the handler registered under `name` may give to
    /// `request`.
    pub closed spec fn answers_at(&self, name: Seq<char>, request: R, r: Result<T, MediatorError>) -> bool {
        self.handlers@[key_index(entry_names(self.handlers@), name)].1.handler.answers(request, r)
    }

    /// No handlers.
    pub fn new() -> (r: Self)
        ensures
            r.wf(),
            r.names() == Seq::<Seq<char>>::empty(),
    {
        let r = RequestMediator { handlers: Vec::new() };
        assert(r.names() =~= Seq::<Seq<char>>::empty());
        assert(entry_names(r.handlers@) =~= Seq::<(Seq<char>, ())>::empty());
        r
    }

    /// Register `handler` under `name`, replacing one registered under it.
    pub fn register<H: RequestHandler<R, T> + 'static>(&mut self, name: &str, handler: H)
        requires
            old(self).wf(),
        ensures
            final(self).wf(),
            final(self).names() == put_name(old(self).names(), name@),
            forall|other: Seq<char>, req: R, r: Result<T, MediatorError>| other != name@ && old(self).names().contains(other)
                ==> (#[trigger] final(self).answers_at(other, req, r) == old(self).answers_at(other, req, r)),
    {
        let ghost before = self.handlers@;
        put_named(&mut self.handlers, name, request_slot(handler));
        proof {
            assert forall|other: Seq<char>, req: R, r: Result<T, MediatorError>| other != name@ && old(self).names().contains(other)
                implies (#[trigger] self.answers_at(other, req, r) == old(self).answers_at(other, req, r)) by {
                lemma_names_contains(before, other);
                assert(has_key(entry_names(before), other));
                let j = key_index(entry_names(before), other);
                assert(0 <= j < before.len());
                assert(names_of(self.handlers@).len() >= names_of(before).len());
                assert(entry_names(before)[j].0 == other);
                assert(self.handlers@[j] == before[j]);
                crate::multimap::lemma_key_index_unique(entry_names(self.handlers@), j);
            }
        }
    }

    /// Whether a handler is registered under `name`.
    pub fn has_handler(&self, name: &str) -> (r: bool)
        requires
            self.wf(),
        ensures
            r == self.names().contains(name@),
    {
        let r = find_name(&self.handlers, name).is_some();
        proof {
            lemma_names_contains(self.handlers@, name@);
        }
        r
    }

    /// The answer of the handler registered under `handler_name`;
    /// `HandlerNotFound` with the name where there is none.
    pub fn send(&self, handler_name: &str, request: R) -> (r: Result<T, MediatorError>)
        requires
            self.wf(),
        ensures
            !self.names().contains(handler_name@) ==> (r matches Err(MediatorError::HandlerNotFound(n))
                && n@ == handler_name@),
            self.names().contains(handler_name@) ==> self.answers_at(handler_name@, request, r),
    {
        proof {
            lemma_names_contains(self.handlers@, handler_name@);
        }
        match find_name(&self.handlers, handler_name) {
            Some(i) => self.handlers[i].1.handler.handle(request),
            None => Err(MediatorError::HandlerNotFound(to_owned_string(handler_name))),
        }
    }

    /// The handler names, in the order first registered.
    pub fn handler_names(&self) -> (r: Vec<String>)
        ensures
            r@.len() == self.names().len(),
            forall|i: int| 0 <= i < r@.len() ==> (#[trigger] r@[i])@ == self.names()[i],
    {
        let mut out: Vec<String> = Vec::new();
        let mut i: usize = 0;
        while i < self.handlers.len()
            invariant
                i <= self.handlers@.len(),
                out@.len() == i,
                forall|j: int| 0 <= j < i ==> (#[trigger] out@[j])@ == names_of(self.handlers@)[j],
            decreases self.handlers@.len() - i,
        {
            out.push(to_owned_string(self.handlers[i].0.as_str()));
            i = i + 1;
        }
        out
    }
}

impl<R, T> Default for RequestMediator<R, T> {
    fn default() -> (r: Self)
        ensures
            r.wf(),
            r.names() == Seq::<Seq<char>>::empty(),
    {
        RequestMediator::new()
    }
}

/// A name occurs among the names exactly when it has an entry.
pub(crate) proof fn lemma_names_contains<A>(s: Seq<(String, A)>, name: Seq<char>)
    ensures
        names_of(s).contains(name) == has_key(entry_names(s), name),
{
    if names_of(s).contains(name) {
        let j = choose|j: int| 0 <= j < names_of(s).len() && names_of(s)[j] == name;
        assert(entry_names(s)[j].0 == name);
    }
    if has_key(entry_names(s), name) {
        let j = choose|j: int| 0 <= j < entry_names(s).len() && entry_names(s)[j].0 == name;
        assert(names_of(s)[j] == name);
    }
}

/// Something told of events of type `E`.
trait EventHandler<E> {
    fn handle(&self, event: E);
}

/// An event handler made of a function.
#[verifier::reject_recursive_types(E)]
struct FnEventHandler<E, F: Fn(E)> {
    func: F,
    marker: PhantomData<E>,
}

impl<E, F: Fn(E)> FnEventHandler<E, F> {
    #[verifier::type_invariant]
    spec fn accepts_all(self) -> bool {
        forall|e: E| call_requires(self.func, (e,))
    }
}

impl<E, F: Fn(E)> EventHandler<E> for FnEventHandler<E, F> {
    fn handle(&self, event: E) {
        proof {
            use_type_invariant(self);
        }
        (self.func)(event)
    }
}

/// One subscribed event handler.
#[verifier::reject_recursive_types(E)]
struct EventSlot<E> {
    handler: Box<dyn EventHandler<E>>,
}

/// `func` as a subscribed handler.
fn event_slot<E: 'static, F: Fn(E) + 'static>(func: F) -> EventSlot<E>
    requires
        forall|e: E| call_requires(func, (e,)),
{
    EventSlot { handler: Box::new(FnEventHandler { func, marker: PhantomData }) }
}

/// Append a handler.
fn push_event_slot<E>(v: &mut Vec<EventSlot<E>>, slot: EventSlot<E>)
    ensures
        final(v)@.len() == old(v)@.len() + 1,
{
    v.push(slot);
}

/// Event names with their number of subscribers.
pub open spec fn subscriber_counts<E>(s: Seq<(String, Vec<EventSlot<E>>)>) -> Seq<(Seq<char>, nat)> {
    s.map_values(|e: (String, Vec<EventSlot<E>>)| (e.0@, e.1@.len()))
}

/// The counts after one more subscriber of `name`.
pub open spec fn add_subscriber(cs: Seq<(Seq<char>, nat)>, name: Seq<char>) -> Seq<(Seq<char>, nat)> {
    if has_key(cs, name) {
        cs.update(key_index(cs, name), (name, cs[key_index(cs, name)].1 + 1))
    } else {
        cs.push((name, 1))
    }
}

/// Delivers each event to the handlers subscribed under its name.
#[verifier::reject_recursive_types(E)]
pub struct EventMediator<E> {
    handlers: Vec<(String, Vec<EventSlot<E>>)>,
}

impl<E: Clone> EventMediator<E> {
    /// Event names with their number of subscribers, in the order first
    /// subscribed.
    pub closed spec fn counts(&self) -> Seq<(Seq<char>, nat)> {
        subscriber_counts(self.handlers@)
    }

    /// No event name is listed twice.
    pub closed spec fn wf(&self) -> bool {
        distinct_keys(self.counts())
    }

    /// No subscribers.
    pub fn new() -> (r: Self)
        ensures
            r.wf(),
            r.counts() == Seq::<(Seq<char>, nat)>::empty(),
    {
        let r = EventMediator { handlers: Vec::new() };
        assert(r.counts() =~= Seq::<(Seq<char>, nat)>::empty());
        r
    }

    /// Position of the handlers of `name`.
    fn find(&self, name: &str) -> (r: Option<usize>)
        requires
            self.wf(),
        ensures
            match r {
                Some(i) => i < self.handlers@.len() && has_key(self.counts(), name@) && key_index(
                    self.counts(),
                    name@,
                ) == i,
                None => !has_key(self.counts(), name@),
            },
    {
        let ghost cs = self.counts();
        let mut i: usize = 0;
        while i < self.handlers.len()
            invariant
                cs == self.counts(),
                distinct_keys(cs),
                i <= self.handlers@.len(),
                forall|j: int| 0 <= j < i ==> (#[trigger] cs[j]).0 != name@,
            decreases self.handlers@.len() - i,
        {
            assert(cs[i as int].0 == self.handlers@[i as int].0@);
            if str_eq(self.handlers[i].0.as_str(), name) {
                proof {
                    lemma_key_index_unique(cs, i as int);
                }
                return Some(i);
            }
            i = i + 1;
        }
        None
    }

    /// Subscribe `handler` to events named `event_type`.
    pub fn subscribe<F: Fn(E) + 'static>(&mut self, event_type: &str, handler: F)
        where E: 'static,
        requires
            old(self).wf(),
            forall|e: E| call_requires(handler, (e,)),
        ensures
            final(self).wf(),
            final(self).counts() == add_subscriber(old(self).counts(), event_type@),
    {
        let ghost cs = self.counts();
        let slot = event_slot(handler);
        match self.find(event_type) {
            Some(i) => {
                let (k, mut v) = self.handlers.remove(i);
                push_event_slot(&mut v, slot);
                self.handlers.insert(i, (k, v));
                proof {
                    let t = cs.update(i as int, (event_type@, cs[i as int].1 + 1));
                    assert(self.counts() =~= t);
                    assert forall|a: int, b: int| 0 <= a < t.len() && 0 <= b < t.len() && a != b implies t[a].0
                        != t[b].0 by {
                        assert(t[a].0 == cs[a].0);
                        assert(t[b].0 == cs[b].0);
                    }
                }
            },
            None => {
                let mut v: Vec<EventSlot<E>> = Vec::new();
                push_event_slot(&mut v, slot);
                self.handlers.push((to_owned_string(event_type), v));
                proof {
                    let t = cs.push((event_type@, 1));
                    assert(self.counts() =~= t);
                    assert forall|a: int, b: int| 0 <= a < t.len() && 0 <= b < t.len() && a != b implies t[a].0
                        != t[b].0 by {
                        if a < cs.len() {
                            assert(t[a] == cs[a]);
                        }
                        if b < cs.len() {
                            assert(t[b] == cs[b]);
                        }
                    }
                }
            },
        }
    }

    /// Give `event` (a copy each) to every handler subscribed to
    /// `event_type`, in the order they subscribed.
    pub fn publish(&self, event_type: &str, event: E)
        requires
            self.wf(),
    {
        match self.find(event_type) {
            Some(i) => {
                let hs = &self.handlers[i].1;
                let mut j: usize = 0;
                while j < hs.len()
                    invariant
                        j <= hs@.len(),
                    decreases hs@.len() - j,
                {
                    hs[j].handler.handle(event.clone());
                    j = j + 1;
                }
            },
            None => {},
        }
    }

    /// The number of handlers subscribed to `event_type`.
    pub fn subscriber_count(&self, event_type: &str) -> (r: usize)
        requires
            self.wf(),
        ensures
            r == match crate::multimap::lookup(self.counts(), event_type@) {
                Some(n) => n,
                None => 0,
            },
    {
        match self.find(event_type) {
            Some(i) => {
                assert(self.counts()[i as int].1 == self.handlers@[i as int].1@.len());
                self.handlers[i].1.len()
            },
            None => 0,
        }
    }

    /// Drop every subscriber.
    pub fn clear(&mut self)
        ensures
            final(self).wf(),
            final(self).counts() == Seq::<(Seq<char>, nat)>::empty(),
    {
        self.handlers.clear();
        assert(self.counts() =~= Seq::<(Seq<char>, nat)>::empty());
    }
}

impl<E: Clone> Default for EventMediator<E> {
    fn default() -> (r: Self)
        ensures
            r.wf(),
            r.counts() == Seq::<(Seq<char>, nat)>::empty(),
    {
        EventMediator::new()
    }
}

/// Something that receives chat messages.
trait ChatHandler {
    fn receive(&self, from: &str, message: &str);
}

/// A chat participant made of a function.
struct FnChatHandler<F: Fn(&str, &str)> {
    func: F,
}

impl<F: Fn(&str, &str)> FnChatHandler<F> {
    #[verifier::type_invariant]
    spec fn accepts_all(self) -> bool {
        forall|from: &str, message: &str| call_requires(self.func, (from, message))
    }
}

impl<F: Fn(&str, &str)> ChatHandler for FnChatHandler<F> {
    fn receive(&self, from: &str, message: &str) {
        proof {
            use_type_invariant(self);
        }
        (self.func)(from, message)
    }
}

/// One chat participant.
struct ChatSlot {
    handler: Box<dyn ChatHandler>,
}

/// `func` as a participant.
fn chat_slot<F: Fn(&str, &str) + 'static>(func: F) -> ChatSlot
    requires
        forall|from: &str, message: &str| call_requires(func, (from, message)),
{
    ChatSlot { handler: Box::new(FnChatHandler { func }) }
}

/// A room passing messages between named participants.
pub struct ChatRoom {
    participants: Vec<(String, ChatSlot)>,
}

impl ChatRoom {
    /// The participants' names, in the order they first joined.
    pub closed spec fn names(&self) -> Seq<Seq<char>> {
        names_of(self.participants@)
    }

    /// The participants' names as keys.
    pub closed spec fn name_entries(&self) -> Seq<(Seq<char>, ())> {
        entry_names(self.participants@)
    }

    /// No name is used twice.
    pub closed spec fn wf(&self) -> bool {
        distinct_keys(entry_names(self.participants@))
    }

    /// An empty room.
    pub fn new() -> (r: Self)
        ensures
            r.wf(),
            r.names() == Seq::<Seq<char>>::empty(),
    {
        let r = ChatRoom { participants: Vec::new() };
        assert(r.names() =~= Seq::<Seq<char>>::empty());
        assert(entry_names(r.participants@) =~= Seq::<(Seq<char>, ())>::empty());
        r
    }

    /// Let `name` join, receiving with `handler`; a participant of that name
    /// is replaced.
    pub fn add_participant<F: Fn(&str, &str) + 'static>(&mut self, name: &str, handler: F)
        requires
            old(self).wf(),
            forall|from: &str, message: &str| call_requires(handler, (from, message)),
        ensures
            final(self).wf(),
            final(self).names() == put_name(old(self).names(), name@),
    {
        put_named(&mut self.participants, name, chat_slot(handler));
    }

    /// Let `name` leave.
    pub fn remove_participant(&mut self, name: &str)
        requires
            old(self).wf(),
        ensures
            final(self).wf(),
            !final(self).names().contains(name@),
            final(self).name_entries() == remove_key(old(self).name_entries(), name@),
    {
        remove_named(&mut self.participants, name);
        proof {
            lemma_names_contains(self.participants@, name@);
        }
    }

    /// Give `message` from `from` to the participant `to`;
    /// `HandlerNotFound` with `to` where there is no such participant.
    pub fn send_message(&self, from: &str, to: &str, message: &str) -> (r: Result<(), MediatorError>)
        requires
            self.wf(),
        ensures
            r is Ok <==> self.names().contains(to@),
            r matches Err(e) ==> (e matches MediatorError::HandlerNotFound(n) && n@ == to@),
    {
        proof {
            lemma_names_contains(self.participants@, to@);
        }
        match find_name(&self.participants, to) {
            Some(i) => {
                self.participants[i].1.handler.receive(from, message);
                Ok(())
            },
            None => Err(MediatorError::HandlerNotFound(to_owned_string(to))),
        }
    }

    /// Give `message` from `from` to every other participant.
    pub fn broadcast(&self, from: &str, message: &str) {
        let mut i: usize = 0;
        while i < self.participants.len()
            invariant
                i <= self.participants@.len(),
            decreases self.participants@.len() - i,
        {
            if !str_eq(self.participants[i].0.as_str(), from) {
                self.participants[i].1.handler.receive(from, message);
            }
            i = i + 1;
        }
    }

    /// The number of participants.
    pub fn participant_count(&self) -> (r: usize)
        ensures
            r == self.names().len(),
    {
        self.participants.len()
    }
}

impl Default for ChatRoom {
    fn default() -> (r: Self)
        ensures
            r.wf(),
            r.names() == Seq::<Seq<char>>::empty(),
    {
        ChatRoom::new()
    }
}

} // verus!
