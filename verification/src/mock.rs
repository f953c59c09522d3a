//! Test doubles: call recording, queued return values, call-count
//! expectations, mock functions and spies.

use vstd::prelude::*;
use std::collections::VecDeque;
use std::time::Instant;
use crate::clock::instant_now;
use crate::text::{decimal, push_decimal, str_eq, string_push_str, to_owned_string};

verus! {

/// Errors reported by the mocks.
#[derive(Debug, Clone, PartialEq, Eq)]
pub enum MockError {
    UnexpectedCall(String),
    MissingReturnValue(String),
    VerificationFailed(String),
    WrongCallCount { expected: usize, actual: usize },
}

/// One recorded call.
pub struct CallRecord {
    /// Method name.
    pub method: String,
    /// Call arguments, rendered as strings.
    pub args: Vec<String>,
    /// When the call was recorded.
    pub timestamp: Instant,
}

impl Clone for CallRecord {
    fn clone(&self) -> (r: Self)
        ensures
            r.method@ == self.method@,
            r.args@ == self.args@,
    {
        let mut args: Vec<String> = Vec::new();
        let mut i: usize = 0;
        while i < self.args.len()
            invariant
                i <= self.args@.len(),
                args@ == self.args@.subrange(0, i as int),
            decreases self.args@.len() - i,
        {
            args.push(self.args[i].clone());
            i = i + 1;
            assert(args@ =~= self.args@.subrange(0, i as int));
        }
        assert(self.args@.subrange(0, self.args@.len() as int) =~= self.args@);
        CallRecord { method: self.method.clone(), args, timestamp: self.timestamp }
    }
}

impl CallRecord {
    /// A record of a call to `method` without arguments.
    pub fn new(method: &str) -> (r: Self)
        ensures
            r.method@ == method@,
            r.args@.len() == 0,
    {
        CallRecord { method: to_owned_string(method), args: Vec::new(), timestamp: instant_now() }
    }

    /// Add an argument, rendered with its `Display` form.
    pub fn arg<A: std::fmt::Display>(self, arg: A) -> (r: Self)
        ensures
            r.method == self.method,
            r.args@.len() == self.args@.len() + 1,
            r.args@.drop_last() == self.args@,
            vstd::string::to_string_from_display_ensures::<A>(&arg, r.args@.last()),
    {
        let mut me = self;
        let rendered = arg.to_string();
        me.args.push(rendered);
        assert(me.args@.drop_last() =~= self.args@);
        me
    }
}

/// The method names of the recorded calls.
pub open spec fn methods(calls: Seq<CallRecord>) -> Seq<Seq<char>>
    decreases calls.len(),
{
    if calls.len() == 0 {
        Seq::empty()
    } else {
        methods(calls.drop_last()).push(calls.last().method@)
    }
}

/// The recorded calls to method `m`, in order.
pub open spec fn calls_to(calls: Seq<CallRecord>, m: Seq<char>) -> Seq<CallRecord>
    decreases calls.len(),
{
    if calls.len() == 0 {
        Seq::empty()
    } else if calls.last().method@ == m {
        calls_to(calls.drop_last(), m).push(calls.last())
    } else {
        calls_to(calls.drop_last(), m)
    }
}

/// How many recorded calls went to method `m`.
pub open spec fn count_calls(calls: Seq<CallRecord>, m: Seq<char>) -> nat {
    calls_to(calls, m).len()
}

proof fn lemma_calls_to_len(calls: Seq<CallRecord>, m: Seq<char>)
    ensures
        calls_to(calls, m).len() <= calls.len(),
    decreases calls.len(),
{
    if calls.len() > 0 {
        lemma_calls_to_len(calls.drop_last(), m);
    }
}

/// The two sequences record the same methods with the same arguments.
pub open spec fn same_calls(a: Seq<CallRecord>, b: Seq<CallRecord>) -> bool {
    &&& a.len() == b.len()
    &&& forall|i: int|
        0 <= i < a.len() ==> #[trigger] a[i].method@ == b[i].method@ && a[i].args@ == b[i].args@
}

/// Recording a call adds one to the count of its method and leaves every
/// other method's count unchanged; no method is counted more often than
/// there are calls.
pub proof fn lemma_record_counts(calls: Seq<CallRecord>, rec: CallRecord, m: Seq<char>)
    ensures
        count_calls(calls.push(rec), m) == count_calls(calls, m) + (if rec.method@ == m {
            1nat
        } else {
            0nat
        }),
        count_calls(calls, m) <= calls.len(),
{
    assert(calls.push(rec).drop_last() =~= calls);
    lemma_calls_to_len(calls, m);
}

/// Records calls, oldest first.
pub struct CallTracker {
    calls: Vec<CallRecord>,
}

impl CallTracker {
    /// The recorded calls, oldest first.
    pub closed spec fn calls(&self) -> Seq<CallRecord> {
        self.calls@
    }

    /// An empty tracker.
    pub fn new() -> (r: Self)
        ensures
            r.calls() == Seq::<CallRecord>::empty(),
    {
        CallTracker { calls: Vec::new() }
    }

    /// Record a call.
    pub fn record(&mut self, call: CallRecord)
        ensures
            final(self).calls() == old(self).calls().push(call),
    {
        self.calls.push(call);
    }

    /// Record a call to `method` without arguments.
    pub fn record_call(&mut self, method: &str)
        ensures
            final(self).calls().len() == old(self).calls().len() + 1,
            final(self).calls().drop_last() == old(self).calls(),
            final(self).calls().last().method@ == method@,
            final(self).calls().last().args@.len() == 0,
    {
        self.record(CallRecord::new(method));
        assert(self.calls@.drop_last() =~= old(self).calls@);
    }

    /// Number of recorded calls.
    pub fn call_count(&self) -> (r: usize)
        ensures
            r == self.calls().len(),
    {
        self.calls.len()
    }

    /// Copies of the calls to `method`, in order.
    pub fn calls_for(&self, method: &str) -> (r: Vec<CallRecord>)
        ensures
            same_calls(r@, calls_to(self.calls(), method@)),
    {
        let mut out: Vec<CallRecord> = Vec::new();
        let mut i: usize = 0;
        while i < self.calls.len()
            invariant
                i <= self.calls@.len(),
                same_calls(out@, calls_to(self.calls@.subrange(0, i as int), method@)),
            decreases self.calls@.len() - i,
        {
            let ghost prefix = self.calls@.subrange(0, i as int);
            let ghost next = self.calls@.subrange(0, i + 1);
            assert(next.drop_last() =~= prefix);
            assert(next.last() == self.calls@[i as int]);
            let c = &self.calls[i];
            if str_eq(c.method.as_str(), method) {
                out.push(c.clone());
            }
            i = i + 1;
        }
        assert(self.calls@.subrange(0, self.calls@.len() as int) =~= self.calls@);
        out
    }

    /// Number of calls to `method`.
    pub fn call_count_for(&self, method: &str) -> (r: usize)
        ensures
            r == count_calls(self.calls(), method@),
    {
        self.calls_for(method).len()
    }

    /// Whether `method` was called at least once.
    pub fn was_called(&self, method: &str) -> (r: bool)
        ensures
            r == (count_calls(self.calls(), method@) > 0),
    {
        self.call_count_for(method) > 0
    }

    /// `Ok` when `method` was called exactly `expected` times.
    pub fn verify_call_count(&self, method: &str, expected: usize) -> (r: Result<(), MockError>)
        ensures
            r is Ok <==> count_calls(self.calls(), method@) == expected,
            r matches Err(e) ==> e == (MockError::WrongCallCount {
                expected,
                actual: count_calls(self.calls(), method@) as usize,
            }),
    {
        let actual = self.call_count_for(method);
        if actual == expected {
            Ok(())
        } else {
            Err(MockError::WrongCallCount { expected, actual })
        }
    }

    /// Copies of every recorded call.
    pub fn all_calls(&self) -> (r: Vec<CallRecord>)
        ensures
            same_calls(r@, self.calls()),
    {
        let mut out: Vec<CallRecord> = Vec::new();
        let mut i: usize = 0;
        while i < self.calls.len()
            invariant
                i <= self.calls@.len(),
                out@.len() == i,
                forall|k: int|
                    0 <= k < i ==> #[trigger] out@[k].method@ == self.calls@[k].method@
                        && out@[k].args@ == self.calls@[k].args@,
            decreases self.calls@.len() - i,
        {
            out.push(self.calls[i].clone());
            i = i + 1;
        }
        out
    }

    /// Forget every call.
    pub fn clear(&mut self)
        ensures
            final(self).calls() == Seq::<CallRecord>::empty(),
    {
        self.calls.clear();
    }
}

impl Default for CallTracker {
    fn default() -> (r: Self)
        ensures
            r.calls() == Seq::<CallRecord>::empty(),
    {
        Self::new()
    }
}

/// Queued return values, with an optional fallback.
pub struct ReturnQueue<T> {
    values: VecDeque<T>,
    default: Option<T>,
}

impl<T: Clone> ReturnQueue<T> {
    /// Values still queued, next first.
    pub closed spec fn queued(&self) -> Seq<T> {
        self.values@
    }

    /// The fallback value.
    pub closed spec fn fallback(&self) -> Option<T> {
        self.default
    }

    /// An empty queue without a fallback.
    pub fn new() -> (r: Self)
        ensures
            r.queued() == Seq::<T>::empty(),
            r.fallback() is None,
    {
        ReturnQueue { values: VecDeque::new(), default: None }
    }

    /// Queue one value.
    pub fn will_return(&mut self, value: T)
        ensures
            final(self).queued() == old(self).queued().push(value),
            final(self).fallback() == old(self).fallback(),
    {
        self.values.push_back(value);
    }

    /// Queue several values, in order.
    pub fn returns_many(&mut self, values: Vec<T>)
        ensures
            final(self).queued() == old(self).queued() + values@,
            final(self).fallback() == old(self).fallback(),
    {
        let mut values = values;
        let mut rest: VecDeque<T> = VecDeque::new();
        let ghost all = values@;
        while values.len() > 0
            invariant
                values@ + rest@ == all,
            decreases values@.len(),
        {
            let v = values.pop().unwrap();
            rest.push_front(v);
            assert(values@ + rest@ =~= all);
        }
        assert(rest@ =~= all);
        while rest.len() > 0
            invariant
                self.values@ + rest@ == old(self).values@ + all,
                self.default == old(self).default,
            decreases rest@.len(),
        {
            let v = rest.pop_front().unwrap();
            self.values.push_back(v);
            assert(self.values@ + rest@ =~= old(self).values@ + all);
        }
        assert(self.values@ =~= old(self).values@ + all);
    }

    /// Set the value handed out once the queue is empty.
    pub fn returns_default(&mut self, value: T)
        ensures
            final(self).queued() == old(self).queued(),
            final(self).fallback() == Some(value),
    {
        self.default = Some(value);
    }

    /// The next queued value, else a copy of the fallback, else `None`.
    pub fn next(&mut self) -> (r: Option<T>)
        ensures
            final(self).fallback() == old(self).fallback(),
            old(self).queued().len() > 0 ==> r == Some(old(self).queued()[0]) && final(self).queued()
                == old(self).queued().drop_first(),
            old(self).queued().len() == 0 ==> final(self).queued() == old(self).queued() && match old(
                self,
            ).fallback() {
                Some(d) => r matches Some(v) && cloned(d, v),
                None => r is None,
            },
    {
        match self.values.pop_front() {
            Some(v) => Some(v),
            None => match &self.default {
                Some(d) => Some(d.clone()),
                None => None,
            },
        }
    }

    /// Whether no value is queued.
    pub fn is_empty(&self) -> (r: bool)
        ensures
            r == (self.queued().len() == 0),
    {
        self.values.len() == 0
    }
}

impl<T: Clone> Default for ReturnQueue<T> {
    fn default() -> (r: Self)
        ensures
            r.queued() == Seq::<T>::empty(),
            r.fallback() is None,
    {
        Self::new()
    }
}

/// The message for too few calls: "{method}: expected at least {min} calls, got {actual}".
pub open spec fn too_few_message(method: Seq<char>, min: nat, actual: nat) -> Seq<char> {
    method + ": expected at least "@ + decimal(min) + " calls, got "@ + decimal(actual)
}

/// The message for too many calls: "{method}: expected at most {max} calls, got {actual}".
pub open spec fn too_many_message(method: Seq<char>, max: nat, actual: nat) -> Seq<char> {
    method + ": expected at most "@ + decimal(max) + " calls, got "@ + decimal(actual)
}

/// An expected range for the number of calls to a method.
pub struct Expectation {
    method: String,
    min_calls: Option<usize>,
    max_calls: Option<usize>,
    actual_calls: usize,
}

impl Expectation {
    pub closed spec fn method_name(&self) -> Seq<char> {
        self.method@
    }

    pub closed spec fn min_bound(&self) -> Option<usize> {
        self.min_calls
    }

    pub closed spec fn max_bound(&self) -> Option<usize> {
        self.max_calls
    }

    pub closed spec fn actual(&self) -> usize {
        self.actual_calls
    }

    /// Whether the recorded calls are within the bounds.
    pub open spec fn satisfied(&self) -> bool {
        &&& (self.min_bound() matches Some(m) ==> self.actual() >= m)
        &&& (self.max_bound() matches Some(m) ==> self.actual() <= m)
    }

    /// The report of an unmet expectation: the lower bound is checked first.
    pub open spec fn failure_message(&self) -> Seq<char> {
        match self.min_bound() {
            Some(m) if self.actual() < m => too_few_message(
                self.method_name(),
                m as nat,
                self.actual() as nat,
            ),
            _ => too_many_message(self.method_name(), self.max_bound()->0 as nat, self.actual() as nat),
        }
    }

    /// An expectation on `method` without bounds.
    pub fn new(method: &str) -> (r: Self)
        ensures
            r.method_name() == method@,
            r.min_bound() is None,
            r.max_bound() is None,
            r.actual() == 0,
    {
        Expectation { method: to_owned_string(method), min_calls: None, max_calls: None, actual_calls: 0 }
    }

    /// Expect at least `n` calls.
    pub fn at_least(self, n: usize) -> (r: Self)
        ensures
            r.method_name() == self.method_name(),
            r.min_bound() == Some(n),
            r.max_bound() == self.max_bound(),
            r.actual() == self.actual(),
    {
        let mut me = self;
        me.min_calls = Some(n);
        me
    }

    /// Expect at most `n` calls.
    pub fn at_most(self, n: usize) -> (r: Self)
        ensures
            r.method_name() == self.method_name(),
            r.min_bound() == self.min_bound(),
            r.max_bound() == Some(n),
            r.actual() == self.actual(),
    {
        let mut me = self;
        me.max_calls = Some(n);
        me
    }

    /// Expect exactly `n` calls.
    pub fn times(self, n: usize) -> (r: Self)
        ensures
            r.method_name() == self.method_name(),
            r.min_bound() == Some(n),
            r.max_bound() == Some(n),
            r.actual() == self.actual(),
    {
        let mut me = self;
        me.min_calls = Some(n);
        me.max_calls = Some(n);
        me
    }

    /// Expect exactly one call.
    pub fn once(self) -> (r: Self)
        ensures
            r.method_name() == self.method_name(),
            r.min_bound() == Some(1usize),
            r.max_bound() == Some(1usize),
            r.actual() == self.actual(),
    {
        self.times(1)
    }

    /// Expect no call.
    pub fn never(self) -> (r: Self)
        ensures
            r.method_name() == self.method_name(),
            r.min_bound() == Some(0usize),
            r.max_bound() == Some(0usize),
            r.actual() == self.actual(),
    {
        self.times(0)
    }

    /// Count one call (the count wraps around at the top of its range).
    pub fn record_call(&mut self)
        ensures
            final(self).actual() == vstd::wrapping::usize_specs::wrapping_add(old(self).actual(), 1),
            final(self).method_name() == old(self).method_name(),
            final(self).min_bound() == old(self).min_bound(),
            final(self).max_bound() == old(self).max_bound(),
    {
        self.actual_calls = self.actual_calls.wrapping_add(1);
    }

    /// The method name.
    pub fn method(&self) -> (r: &str)
        ensures
            r@ == self.method_name(),
    {
        self.method.as_str()
    }

    /// `Ok` when the number of calls is within the bounds; otherwise the
    /// lower bound is reported first.
    pub fn verify(&self) -> (r: Result<(), MockError>)
        ensures
            r is Ok <==> self.satisfied(),
            r is Err ==> (r matches Err(MockError::VerificationFailed(msg)) && msg@
                == self.failure_message()),
    {
        let actual = self.actual_calls;
        if let Some(min) = self.min_calls {
            if actual < min {
                let mut msg = self.method.clone();
                string_push_str(&mut msg, ": expected at least ");
                push_decimal(&mut msg, min);
                string_push_str(&mut msg, " calls, got ");
                push_decimal(&mut msg, actual);
                return Err(MockError::VerificationFailed(msg));
            }
        }
        if let Some(max) = self.max_calls {
            if actual > max {
                let mut msg = self.method.clone();
                string_push_str(&mut msg, ": expected at most ");
                push_decimal(&mut msg, max);
                string_push_str(&mut msg, " calls, got ");
                push_decimal(&mut msg, actual);
                return Err(MockError::VerificationFailed(msg));
            }
        }
        Ok(())
    }
}

/// The expectations after one call to method `m`: those on `m` count it.
pub open spec fn after_call(exps: Seq<Expectation>, m: Seq<char>, post: Seq<Expectation>) -> bool {
    &&& post.len() == exps.len()
    &&& forall|i: int|
        0 <= i < exps.len() ==> {
            &&& (#[trigger] post[i]).method_name() == exps[i].method_name()
            &&& post[i].min_bound() == exps[i].min_bound()
            &&& post[i].max_bound() == exps[i].max_bound()
            &&& post[i].actual() == (if exps[i].method_name() == m {
                vstd::wrapping::usize_specs::wrapping_add(exps[i].actual(), 1)
            } else {
                exps[i].actual()
            })
        }
}

/// Index of the first expectation that is not met, if any.
pub open spec fn first_unmet(exps: Seq<Expectation>, i: int) -> bool {
    &&& 0 <= i < exps.len()
    &&& !exps[i].satisfied()
    &&& forall|j: int| 0 <= j < i ==> (#[trigger] exps[j]).satisfied()
}

/// Expectations together with a record of every call.
pub struct MockContext {
    expectations: Vec<Expectation>,
    tracker: CallTracker,
}

impl MockContext {
    pub closed spec fn expectations(&self) -> Seq<Expectation> {
        self.expectations@
    }

    pub closed spec fn calls(&self) -> Seq<CallRecord> {
        self.tracker.calls()
    }

    /// A context without expectations or calls.
    pub fn new() -> (r: Self)
        ensures
            r.expectations().len() == 0,
            r.calls().len() == 0,
    {
        MockContext { expectations: Vec::new(), tracker: CallTracker::new() }
    }

    /// Add an unbounded expectation on `method`.
    pub fn expect(&mut self, method: &str) -> (r: &mut Self)
        ensures
            r.expectations().len() == old(self).expectations().len() + 1,
            r.expectations().drop_last() == old(self).expectations(),
            r.expectations().last().method_name() == method@,
            r.expectations().last().min_bound() is None,
            r.expectations().last().max_bound() is None,
            r.expectations().last().actual() == 0,
            r.calls() == old(self).calls(),
            *final(self) == *final(r),
    {
        self.expectations.push(Expectation::new(method));
        assert(self.expectations@.drop_last() =~= old(self).expectations@);
        self
    }

    /// Record a call to `method` and count it on its expectations.
    pub fn call(&mut self, method: &str)
        ensures
            final(self).calls().len() == old(self).calls().len() + 1,
            final(self).calls().drop_last() == old(self).calls(),
            final(self).calls().last().method@ == method@,
            after_call(old(self).expectations(), method@, final(self).expectations()),
    {
        self.tracker.record_call(method);
        let ghost calls_after = self.tracker.calls();
        let n = self.expectations.len();
        let mut i: usize = 0;
        while i < n
            invariant
                n == self.expectations@.len(),
                n == old(self).expectations@.len(),
                i <= n,
                self.tracker.calls() == calls_after,
                forall|k: int|
                    i <= k < n ==> #[trigger] self.expectations@[k] == old(self).expectations@[k],
                forall|k: int|
                    0 <= k < i ==> {
                        &&& (#[trigger] self.expectations@[k]).method_name()
                            == old(self).expectations@[k].method_name()
                        &&& self.expectations@[k].min_bound() == old(self).expectations@[k].min_bound()
                        &&& self.expectations@[k].max_bound() == old(self).expectations@[k].max_bound()
                        &&& self.expectations@[k].actual() == (if old(self).expectations@[k].method_name()
                            == method@ {
                            vstd::wrapping::usize_specs::wrapping_add(
                                old(self).expectations@[k].actual(),
                                1,
                            )
                        } else {
                            old(self).expectations@[k].actual()
                        })
                    },
            decreases n - i,
        {
            if str_eq(self.expectations[i].method(), method) {
                let mut e = self.expectations.remove(i);
                e.record_call();
                self.expectations.insert(i, e);
            }
            i = i + 1;
        }
    }

    /// The call record.
    pub fn tracker(&self) -> (r: &CallTracker)
        ensures
            r.calls() == self.calls(),
    {
        &self.tracker
    }

    /// `Ok` when every expectation is met, else the first failure.
    pub fn verify(&self) -> (r: Result<(), MockError>)
        ensures
            r is Ok <==> forall|i: int|
                0 <= i < self.expectations().len() ==> (#[trigger] self.expectations()[i]).satisfied(),
            r is Err ==> exists|i: int|
                first_unmet(self.expectations(), i) && (r matches Err(
                    MockError::VerificationFailed(msg),
                ) && msg@ == self.expectations()[i].failure_message()),
    {
        let mut i: usize = 0;
        while i < self.expectations.len()
            invariant
                i <= self.expectations@.len(),
                forall|j: int| 0 <= j < i ==> (#[trigger] self.expectations@[j]).satisfied(),
            decreases self.expectations@.len() - i,
        {
            let res = self.expectations[i].verify();
            if res.is_err() {
                proof {
                    let e = self.expectations@[i as int];
                    assert(!e.satisfied());
                    assert(first_unmet(self.expectations@, i as int));
                    assert(res matches Err(MockError::VerificationFailed(msg)) && msg@ == e.failure_message());
                    assert(self.expectations() == self.expectations@);
                    assert(!self.expectations()[i as int].satisfied());
                    assert(first_unmet(self.expectations(), i as int) && (res matches Err(
                        MockError::VerificationFailed(msg),
                    ) && msg@ == self.expectations()[i as int].failure_message()));
                }
                return res;
            }
            i = i + 1;
        }
        Ok(())
    }
}

impl Default for MockContext {
    fn default() -> (r: Self)
        ensures
            r.expectations().len() == 0,
            r.calls().len() == 0,
    {
        Self::new()
    }
}

/// A mock function: records each call under the name "call" and answers
/// from a queue of return values.
pub struct MockFn<R> {
    tracker: CallTracker,
    answers: ReturnQueue<R>,
}

impl<R: Clone> MockFn<R> {
    pub closed spec fn calls(&self) -> Seq<CallRecord> {
        self.tracker.calls()
    }

    pub closed spec fn queued(&self) -> Seq<R> {
        self.answers.queued()
    }

    pub closed spec fn fallback(&self) -> Option<R> {
        self.answers.fallback()
    }

    /// A mock that has not been called and has nothing to return.
    pub fn new() -> (r: Self)
        ensures
            r.calls().len() == 0,
            r.queued().len() == 0,
            r.fallback() is None,
    {
        MockFn { tracker: CallTracker::new(), answers: ReturnQueue::new() }
    }

    /// Queue a return value.
    pub fn will_return(&mut self, value: R) -> (r: &mut Self)
        ensures
            r.queued() == old(self).queued().push(value),
            r.fallback() == old(self).fallback(),
            r.calls() == old(self).calls(),
            *final(self) == *final(r),
    {
        self.answers.will_return(value);
        self
    }

    /// Set the value returned once the queue is empty.
    pub fn returns_default(&mut self, value: R) -> (r: &mut Self)
        ensures
            r.queued() == old(self).queued(),
            r.fallback() == Some(value),
            r.calls() == old(self).calls(),
            *final(self) == *final(r),
    {
        self.answers.returns_default(value);
        self
    }

    /// Call the mock: record the call and hand out the next answer.
    pub fn call(&mut self) -> (r: Option<R>)
        ensures
            final(self).calls().len() == old(self).calls().len() + 1,
            final(self).calls().drop_last() == old(self).calls(),
            final(self).calls().last().method@ == "call"@,
            final(self).fallback() == old(self).fallback(),
            old(self).queued().len() > 0 ==> r == Some(old(self).queued()[0]) && final(self).queued()
                == old(self).queued().drop_first(),
            old(self).queued().len() == 0 ==> final(self).queued() == old(self).queued() && match old(
                self,
            ).fallback() {
                Some(d) => r matches Some(v) && cloned(d, v),
                None => r is None,
            },
    {
        self.tracker.record_call("call");
        self.answers.next()
    }

    /// How many times the mock was called.
    pub fn call_count(&self) -> (r: usize)
        ensures
            r == self.calls().len(),
    {
        self.tracker.call_count()
    }

    /// `Ok` when the mock was called exactly `times` times.
    pub fn verify_called(&self, times: usize) -> (r: Result<(), MockError>)
        ensures
            r is Ok <==> count_calls(self.calls(), "call"@) == times,
            r matches Err(e) ==> e == (MockError::WrongCallCount {
                expected: times,
                actual: count_calls(self.calls(), "call"@) as usize,
            }),
    {
        self.tracker.verify_call_count("call", times)
    }

    /// Whether the mock was called.
    pub fn was_called(&self) -> (r: bool)
        ensures
            r == (count_calls(self.calls(), "call"@) > 0),
    {
        self.tracker.was_called("call")
    }
}

impl<R: Clone> Default for MockFn<R> {
    fn default() -> (r: Self)
        ensures
            r.calls().len() == 0,
            r.queued().len() == 0,
            r.fallback() is None,
    {
        Self::new()
    }
}

/// A real value together with a record of the calls made on it.
pub struct Spy<T> {
    inner: T,
    tracker: CallTracker,
}

impl<T> Spy<T> {
    pub closed spec fn value(&self) -> T {
        self.inner
    }

    pub closed spec fn calls(&self) -> Seq<CallRecord> {
        self.tracker.calls()
    }

    /// Spy on `inner`.
    pub fn new(inner: T) -> (r: Self)
        ensures
            r.value() == inner,
            r.calls().len() == 0,
    {
        Spy { inner, tracker: CallTracker::new() }
    }

    /// The real value.
    pub fn inner(&self) -> (r: &T)
        ensures
            *r == self.value(),
    {
        &self.inner
    }

    /// The real value, for modification.
    pub fn inner_mut(&mut self) -> (r: &mut T)
        ensures
            *r == old(self).value(),
            final(self).value() == *final(r),
            final(self).calls() == old(self).calls(),
    {
        &mut self.inner
    }

    /// Record a call to `method`.
    pub fn record(&mut self, method: &str)
        ensures
            final(self).value() == old(self).value(),
            final(self).calls().len() == old(self).calls().len() + 1,
            final(self).calls().drop_last() == old(self).calls(),
            final(self).calls().last().method@ == method@,
    {
        self.tracker.record_call(method);
    }

    /// The call record.
    pub fn tracker(&self) -> (r: &CallTracker)
        ensures
            r.calls() == self.calls(),
    {
        &self.tracker
    }
}

} // verus!
