//! A chain of middleware around a request handler: each middleware sees the
//! request context before and after the rest of the chain runs. Logging,
//! timeouts, metrics, retry settings, rate limiting and correlation
//! identifiers come with it.

use vstd::prelude::*;
use std::time::Duration;
use crate::clock::{duration_nanos, elapsed_millis, instant_duration_since, instant_now, utc_now_millis};
use crate::mediator::{entry_names, find_name, names_of, put_name, put_named};
use crate::memory_graph::value_of;
use crate::ids::{new_uuid, uuid_text};
use crate::multimap::{distinct_keys, has_key, key_index};
use crate::text::{decimal, push_decimal_u64, string_push_str, to_owned_string};

verus! {

/// Errors of the chain.
#[derive(Debug, Clone, PartialEq, Eq)]
pub enum MiddlewareError {
    Rejected(String),
    ProcessingError(String),
    Timeout,
    ChainBroken,
}

impl MiddlewareError {
    /// The error's description.
    pub fn message(&self) -> (r: String)
        ensures
            r@ == match self {
                MiddlewareError::Rejected(s) => "Request rejected: "@ + s@,
                MiddlewareError::ProcessingError(s) => "Processing error: "@ + s@,
                MiddlewareError::Timeout => "Timeout"@,
                MiddlewareError::ChainBroken => "Chain broken"@,
            },
    {
        match self {
            MiddlewareError::Rejected(s) => {
                let mut out = to_owned_string("Request rejected: ");
                string_push_str(&mut out, s.as_str());
                out
            },
            MiddlewareError::ProcessingError(s) => {
                let mut out = to_owned_string("Processing error: ");
                string_push_str(&mut out, s.as_str());
                out
            },
            MiddlewareError::Timeout => to_owned_string("Timeout"),
            MiddlewareError::ChainBroken => to_owned_string("Chain broken"),
        }
    }
}

/// What travels with a request through the chain.
#[derive(Debug)]
pub struct Context {
    pub id: uuid::Uuid,
    /// When the request came in, in milliseconds since the Unix epoch.
    pub timestamp_millis: i64,
    /// Named values, no name twice.
    pub attributes: Vec<(String, String)>,
}

/// The value of the first attribute named `key`, if any.
pub open spec fn attribute(a: Seq<(String, String)>, key: Seq<char>) -> Option<Seq<char>>
    decreases a.len(),
{
    if a.len() == 0 {
        None
    } else {
        match attribute(a.drop_last(), key) {
            Some(v) => Some(v),
            None => if a.last().0@ == key { Some(a.last().1@) } else { None },
        }
    }
}

/// The position of the first attribute named `key`, if any.
pub open spec fn attribute_index(a: Seq<(String, String)>, key: Seq<char>) -> Option<int>
    decreases a.len(),
{
    if a.len() == 0 {
        None
    } else {
        match attribute_index(a.drop_last(), key) {
            Some(i) => Some(i),
            None => if a.last().0@ == key { Some(a.len() - 1) } else { None },
        }
    }
}

proof fn lemma_attribute_index(a: Seq<(String, String)>, key: Seq<char>)
    ensures
        match attribute_index(a, key) {
            Some(i) => 0 <= i < a.len() && a[i].0@ == key && attribute(a, key) == Some(a[i].1@)
                && forall|j: int| 0 <= j < i ==> (#[trigger] a[j]).0@ != key,
            None => attribute(a, key) is None && forall|j: int| 0 <= j < a.len() ==> (#[trigger] a[j]).0@ != key,
        },
    decreases a.len(),
{
    if a.len() > 0 {
        let t = a.drop_last();
        lemma_attribute_index(t, key);
        assert forall|j: int| 0 <= j < t.len() implies #[trigger] t[j] == a[j] by {}
        match attribute_index(t, key) {
            Some(i) => {
                assert(t[i] == a[i]);
                assert forall|j: int| 0 <= j < i implies (#[trigger] a[j]).0@ != key by {
                    assert(t[j] == a[j]);
                }
            },
            None => {
                assert forall|j: int| 0 <= j < a.len() - 1 implies (#[trigger] a[j]).0@ != key by {
                    assert(t[j] == a[j]);
                }
            },
        }
    }
}

/// Replacing the value at `i`, the first attribute named `key`, leaves the
/// other names' values as they were.
proof fn lemma_attribute_update(a: Seq<(String, String)>, i: int, v: String, k: Seq<char>)
    requires
        0 <= i < a.len(),
        k != a[i].0@,
    ensures
        attribute(a.update(i, (a[i].0, v)), k) == attribute(a, k),
    decreases a.len(),
{
    let b = a.update(i, (a[i].0, v));
    if i < a.len() - 1 {
        assert(b.drop_last() =~= a.drop_last().update(i, (a[i].0, v)));
        lemma_attribute_update(a.drop_last(), i, v, k);
    } else {
        assert(b.drop_last() =~= a.drop_last());
    }
}

fn attribute_position(a: &Vec<(String, String)>, key: &str) -> (r: Option<usize>)
    ensures
        match r {
            Some(i) => attribute_index(a@, key@) == Some(i as int),
            None => attribute_index(a@, key@) is None,
        },
{
    proof {
        lemma_attribute_index(a@, key@);
    }
    let mut i: usize = 0;
    while i < a.len()
        invariant
            i <= a@.len(),
            forall|j: int| 0 <= j < i ==> (#[trigger] a@[j]).0@ != key@,
            match attribute_index(a@, key@) {
                Some(k) => 0 <= k < a@.len() && a@[k].0@ == key@ && forall|j: int| 0 <= j < k ==> (#[trigger] a@[j]).0@ != key@,
                None => forall|j: int| 0 <= j < a@.len() ==> (#[trigger] a@[j]).0@ != key@,
            },
        decreases a@.len() - i,
    {
        if crate::text::str_eq(a[i].0.as_str(), key) {
            return Some(i);
        }
        i = i + 1;
    }
    None
}

impl Context {
    /// A context under the identifier `id` for a request that came in at
    /// `now_millis`, with no attribute.
    pub fn new_at(id: uuid::Uuid, now_millis: i64) -> (r: Self)
        ensures
            r.id == id,
            r.timestamp_millis == now_millis,
            r.attributes@.len() == 0,
    {
        Context { id, timestamp_millis: now_millis, attributes: Vec::new() }
    }

    /// A context under a fresh random identifier, now.
    pub fn new() -> (r: Self)
        ensures
            r.attributes@.len() == 0,
    {
        Context::new_at(new_uuid(), utc_now_millis())
    }

    /// Set the attribute `key` to `value`: the first attribute of that name
    /// takes the value, else one is added last.
    pub fn set_attribute(&mut self, key: &str, value: &str)
        ensures
            attribute(final(self).attributes@, key@) == Some(value@),
            forall|k: Seq<char>| k != key@ ==> #[trigger] attribute(final(self).attributes@, k) == attribute(old(self).attributes@, k),
            attribute(old(self).attributes@, key@) is Some ==> final(self).attributes@.len() == old(self).attributes@.len(),
            attribute(old(self).attributes@, key@) is None ==> final(self).attributes@.len() == old(self).attributes@.len() + 1,
            final(self).id == old(self).id,
            final(self).timestamp_millis == old(self).timestamp_millis,
    {
        proof {
            lemma_attribute_index(self.attributes@, key@);
        }
        match attribute_position(&self.attributes, key) {
            Some(i) => {
                let ghost before = self.attributes@;
                let name = self.attributes[i].0.clone();
                self.attributes.set(i, (name, to_owned_string(value)));
                proof {
                    assert(self.attributes@ =~= before.update(i as int, (before[i as int].0, self.attributes@[i as int].1)));
                    lemma_attribute_index(self.attributes@, key@);
                    assert forall|j: int| 0 <= j < i implies (#[trigger] self.attributes@[j]).0@ != key@ by {
                        assert(self.attributes@[j] == before[j]);
                    }
                    assert(attribute_index(self.attributes@, key@) == Some(i as int)) by {
                        match attribute_index(self.attributes@, key@) {
                            Some(k) => {
                                if k > i {
                                    assert(self.attributes@[i as int].0@ == key@);
                                }
                            },
                            None => {
                                assert(self.attributes@[i as int].0@ == key@);
                            },
                        }
                    }
                    assert forall|k: Seq<char>| k != key@ implies #[trigger] attribute(self.attributes@, k) == attribute(before, k) by {
                        lemma_attribute_update(before, i as int, self.attributes@[i as int].1, k);
                    }
                }
            },
            None => {
                let ghost before = self.attributes@;
                self.attributes.push((to_owned_string(key), to_owned_string(value)));
                proof {
                    assert(self.attributes@.drop_last() =~= before);
                }
            },
        }
    }

    /// The value of the first attribute named `key`, if any.
    pub fn get_attribute(&self, key: &str) -> (r: Option<&str>)
        ensures
            match r {
                Some(v) => attribute(self.attributes@, key@) == Some(v@),
                None => attribute(self.attributes@, key@) is None,
            },
    {
        proof {
            lemma_attribute_index(self.attributes@, key@);
        }
        match attribute_position(&self.attributes, key) {
            Some(i) => Some(self.attributes[i].1.as_str()),
            None => None,
        }
    }

    /// The milliseconds from the request's arrival to `now_millis`, zero
    /// where `now_millis` is earlier.
    pub fn elapsed_at(&self, now_millis: i64) -> (r: u64)
        ensures
            r == if now_millis >= self.timestamp_millis { now_millis - self.timestamp_millis } else { 0 },
    {
        if now_millis >= self.timestamp_millis {
            (now_millis as i128 - self.timestamp_millis as i128) as u64
        } else {
            0
        }
    }

    /// The milliseconds since the request came in.
    pub fn elapsed(&self) -> (r: u64) {
        self.elapsed_at(utc_now_millis())
    }
}

/// A step of the chain, around the rest of it; users implement it. `before`
/// sees the request on its way in and may turn it away; `after` sees what
/// the rest of the chain answered and may change it.
pub trait Middleware<Req, Res> {
    /// Look at `request` before the rest of the chain; an error turns it
    /// away.
    fn before(&mut self, ctx: &mut Context, request: &Req) -> Result<(), MiddlewareError>;

    /// Look at what the rest of the chain answered.
    fn after(&mut self, ctx: &mut Context, result: Result<Res, MiddlewareError>) -> Result<Res, MiddlewareError>;
}

/// What answers a request at the end of the chain; users implement it.
pub trait Handler<Req, Res> {
    /// Answer `request`.
    fn handle(&self, ctx: &mut Context, request: Req) -> Result<Res, MiddlewareError>;
}

/// One step of a chain.
#[verifier::reject_recursive_types(Req)]
#[verifier::reject_recursive_types(Res)]
struct Step<Req, Res> {
    middleware: Box<dyn Middleware<Req, Res>>,
}

fn step<Req, Res, M: Middleware<Req, Res> + 'static>(m: M) -> Step<Req, Res> {
    Step { middleware: Box::new(m) }
}

/// The end of a chain.
#[verifier::reject_recursive_types(Req)]
#[verifier::reject_recursive_types(Res)]
struct End<Req, Res> {
    handler: Box<dyn Handler<Req, Res>>,
}

fn end<Req, Res, H: Handler<Req, Res> + 'static>(h: H) -> End<Req, Res> {
    End { handler: Box::new(h) }
}

/// Middleware around a handler.
#[verifier::reject_recursive_types(Req)]
#[verifier::reject_recursive_types(Res)]
pub struct MiddlewareChain<Req, Res> {
    middlewares: Vec<Step<Req, Res>>,
    handler: End<Req, Res>,
}

impl<Req, Res> MiddlewareChain<Req, Res> {
    /// How many middleware there are.
    pub closed spec fn len(&self) -> nat {
        self.middlewares@.len()
    }

    /// A chain of no middleware around `handler`.
    pub fn new<H: Handler<Req, Res> + 'static>(handler: H) -> (r: Self)
        ensures
            r.len() == 0,
    {
        MiddlewareChain { middlewares: Vec::new(), handler: end(handler) }
    }

    /// The chain with `middleware` added innermost, next to the handler.
    pub fn add<M: Middleware<Req, Res> + 'static>(self, middleware: M) -> (r: Self)
        ensures
            r.len() == self.len() + 1,
    {
        let mut chain = self;
        chain.middlewares.push(step(middleware));
        chain
    }

    /// Run `request` through the chain with a fresh context.
    pub fn process(&mut self, request: Req) -> (r: Result<Res, MiddlewareError>)
        ensures
            final(self).len() == old(self).len(),
    {
        let mut ctx = Context::new();
        self.process_with_context(&mut ctx, request)
    }

    /// Run `request` through the chain with `ctx`: each middleware, outermost
    /// first, sees it on its way in, until one turns it away; the handler
    /// answers if none did; then each middleware that saw the request, innermost
    /// first, sees the answer on its way out and may change it.
    pub fn process_with_context(&mut self, ctx: &mut Context, request: Req) -> (r: Result<Res, MiddlewareError>)
        ensures
            final(self).len() == old(self).len(),
    {
        let n = self.middlewares.len();
        let mut entered: usize = 0;
        let mut refusal: Option<MiddlewareError> = None;
        while entered < n && refusal.is_none()
            invariant
                entered <= n,
                n == self.middlewares@.len(),
            decreases n - entered + if refusal is None { 1int } else { 0int },
        {
            match self.middlewares[entered].middleware.before(ctx, &request) {
                Ok(()) => {
                    entered = entered + 1;
                },
                Err(e) => {
                    refusal = Some(e);
                },
            }
        }
        let mut result = match refusal {
            Some(e) => Err(e),
            None => self.handler.handler.handle(ctx, request),
        };
        let mut k: usize = entered;
        while k > 0
            invariant
                k <= entered,
                entered <= n,
                n == self.middlewares@.len(),
            decreases k,
        {
            k = k - 1;
            result = self.middlewares[k].middleware.after(ctx, result);
        }
        result
    }
}

/// Records its name and how long the rest of the chain took.
pub struct LoggingMiddleware {
    name: String,
    started: Option<std::time::Instant>,
}

impl LoggingMiddleware {
    /// A logging middleware named `name`.
    pub fn new(name: &str) -> (r: Self)
        ensures
            r.name_view() == name@,
    {
        LoggingMiddleware { name: to_owned_string(name), started: None }
    }

    /// The name.
    pub closed spec fn name_view(&self) -> Seq<char> {
        self.name@
    }

    /// Record the answer's duration, `elapsed_ms` milliseconds, as the
    /// attribute `duration_ms`.
    pub fn record_duration(ctx: &mut Context, elapsed_ms: u64)
        ensures
            attribute(final(ctx).attributes@, "duration_ms"@) == Some(decimal(elapsed_ms as nat)),
            forall|k: Seq<char>| k != "duration_ms"@ ==> #[trigger] attribute(final(ctx).attributes@, k) == attribute(old(ctx).attributes@, k),
            final(ctx).id == old(ctx).id,
    {
        let mut text = String::new();
        push_decimal_u64(&mut text, elapsed_ms);
        assert(text@ =~= decimal(elapsed_ms as nat));
        ctx.set_attribute("duration_ms", text.as_str());
    }
}

impl LoggingMiddleware {
    /// The step on the way in.
    pub fn enter(&mut self, ctx: &mut Context) -> (r: Result<(), MiddlewareError>)
        ensures
            r is Ok,
            attribute(final(ctx).attributes@, "middleware.logging"@) == Some(old(self).name_view()),
            forall|k: Seq<char>| k != "middleware.logging"@ ==> #[trigger] attribute(final(ctx).attributes@, k) == attribute(old(ctx).attributes@, k),
            final(self).name_view() == old(self).name_view(),
    {
        ctx.set_attribute("middleware.logging", self.name.as_str());
        self.started = Some(instant_now());
        Ok(())
    }

    /// The step on the way out.
    pub fn leave<Res>(&mut self, ctx: &mut Context, result: Result<Res, MiddlewareError>) -> (r: Result<Res, MiddlewareError>)
        ensures
            r == result,
            attribute(final(ctx).attributes@, "duration_ms"@) is Some,
            forall|k: Seq<char>| k != "duration_ms"@ ==> #[trigger] attribute(final(ctx).attributes@, k) == attribute(old(ctx).attributes@, k),
    {
        let ms: u64 = match &self.started {
            Some(at) => elapsed_millis(at),
            None => 0,
        };
        LoggingMiddleware::record_duration(ctx, ms);
        result
    }
}

impl<Req, Res> Middleware<Req, Res> for LoggingMiddleware {
    fn before(&mut self, ctx: &mut Context, request: &Req) -> Result<(), MiddlewareError> {
        self.enter(ctx)
    }

    fn after(&mut self, ctx: &mut Context, result: Result<Res, MiddlewareError>) -> Result<Res, MiddlewareError> {
        self.leave(ctx, result)
    }
}

/// What a timeout makes of the answer `result`: a timeout where the rest of
/// the chain took too long, else the answer.
pub fn timeout_outcome<Res>(result: Result<Res, MiddlewareError>, exceeded: bool) -> (r: Result<Res, MiddlewareError>)
    ensures
        exceeded ==> r == Err::<Res, MiddlewareError>(MiddlewareError::Timeout),
        !exceeded ==> r == result,
{
    if exceeded {
        Err(MiddlewareError::Timeout)
    } else {
        result
    }
}

/// Answers with a timeout where the rest of the chain took longer than
/// allowed.
pub struct TimeoutMiddleware {
    timeout_nanos: u128,
    started: Option<std::time::Instant>,
}

impl TimeoutMiddleware {
    /// A timeout middleware allowing `timeout`.
    pub fn new(timeout: Duration) -> (r: Self) {
        TimeoutMiddleware { timeout_nanos: duration_nanos(&timeout), started: None }
    }

    /// A timeout middleware allowing `timeout_nanos` nanoseconds.
    pub fn new_nanos(timeout_nanos: u128) -> (r: Self)
        ensures
            r.timeout_view() == timeout_nanos,
    {
        TimeoutMiddleware { timeout_nanos, started: None }
    }

    /// The nanoseconds allowed.
    pub closed spec fn timeout_view(&self) -> u128 {
        self.timeout_nanos
    }
}

/// What a timeout of `timeout_nanos` makes of the answer `result` where the
/// rest of the chain took `took_nanos`: a timeout where it took longer than
/// allowed, else the answer.
pub open spec fn timed_answer<Res>(
    result: Result<Res, MiddlewareError>,
    timeout_nanos: u128,
    took_nanos: u128,
) -> Result<Res, MiddlewareError> {
    if timeout_nanos < took_nanos {
        Err(MiddlewareError::Timeout)
    } else {
        result
    }
}

impl TimeoutMiddleware {
    /// The step on the way in.
    pub fn enter(&mut self, ctx: &mut Context) -> (r: Result<(), MiddlewareError>)
        ensures
            r is Ok,
            *final(ctx) == *old(ctx),
            final(self).timeout_view() == old(self).timeout_view(),
    {
        self.started = Some(instant_now());
        Ok(())
    }

    /// The step on the way out, where the rest of the chain took
    /// `took_nanos` since the way in.
    pub fn leave_after<Res>(&self, result: Result<Res, MiddlewareError>, took_nanos: u128) -> (r: Result<Res, MiddlewareError>)
        ensures
            r == timed_answer(result, self.timeout_view(), took_nanos),
    {
        timeout_outcome(result, self.timeout_nanos < took_nanos)
    }

    /// The step on the way out: the answer, or a timeout where the time
    /// since the way in, as the clock gives it, is over the limit (with no
    /// way in recorded, the answer).
    pub fn leave<Res>(&mut self, ctx: &mut Context, result: Result<Res, MiddlewareError>) -> (r: Result<Res, MiddlewareError>)
        ensures
            r == result || exists|took: u128| r == timed_answer(result, old(self).timeout_view(), took),
            *final(ctx) == *old(ctx),
            final(self).timeout_view() == old(self).timeout_view(),
    {
        match &self.started {
            Some(at) => {
                let now = instant_now();
                let took = duration_nanos(&instant_duration_since(&now, at));
                self.leave_after(result, took)
            },
            None => result,
        }
    }
}

impl<Req, Res> Middleware<Req, Res> for TimeoutMiddleware {
    fn before(&mut self, ctx: &mut Context, request: &Req) -> Result<(), MiddlewareError> {
        self.enter(ctx)
    }

    fn after(&mut self, ctx: &mut Context, result: Result<Res, MiddlewareError>) -> Result<Res, MiddlewareError> {
        self.leave(ctx, result)
    }
}

/// Counts requests, errors and the time spent on them.
pub struct MetricsMiddleware {
    requests: u64,
    errors: u64,
    total_duration_ms: u64,
    started: Option<std::time::Instant>,
}

impl MetricsMiddleware {
    /// Counts of nothing yet.
    pub fn new() -> (r: Self)
        ensures
            r.requests_view() == 0,
            r.errors_view() == 0,
            r.total_view() == 0,
    {
        MetricsMiddleware { requests: 0, errors: 0, total_duration_ms: 0, started: None }
    }

    /// The requests seen.
    pub closed spec fn requests_view(&self) -> u64 {
        self.requests
    }

    /// The requests answered with an error.
    pub closed spec fn errors_view(&self) -> u64 {
        self.errors
    }

    /// The milliseconds spent on requests in all.
    pub closed spec fn total_view(&self) -> u64 {
        self.total_duration_ms
    }

    /// The requests seen.
    pub fn requests(&self) -> (r: u64)
        ensures
            r == self.requests_view(),
    {
        self.requests
    }

    /// The requests answered with an error.
    pub fn errors(&self) -> (r: u64)
        ensures
            r == self.errors_view(),
    {
        self.errors
    }

    /// The milliseconds spent on requests in all.
    pub fn total_duration_ms(&self) -> (r: u64)
        ensures
            r == self.total_view(),
    {
        self.total_duration_ms
    }

    /// Count an answer `result` that took `elapsed_ms` milliseconds.
    pub fn count_answer<Res>(&mut self, result: &Result<Res, MiddlewareError>, elapsed_ms: u64)
        ensures
            final(self).requests_view() == old(self).requests_view(),
            final(self).total_view() == (old(self).total_view() as int + elapsed_ms as int) % 0x1_0000_0000_0000_0000,
            final(self).errors_view() == if result is Err { ((old(self).errors_view() + 1) % 0x1_0000_0000_0000_0000) as int } else { old(self).errors_view() as int },
    {
        self.total_duration_ms = self.total_duration_ms.wrapping_add(elapsed_ms);
        if result.is_err() {
            self.errors = self.errors.wrapping_add(1);
        }
    }
}

impl Default for MetricsMiddleware {
    fn default() -> (r: Self)
        ensures
            r.requests_view() == 0,
            r.errors_view() == 0,
            r.total_view() == 0,
    {
        MetricsMiddleware::new()
    }
}

impl MetricsMiddleware {
    /// The step on the way in.
    pub fn enter(&mut self, ctx: &mut Context) -> (r: Result<(), MiddlewareError>)
        ensures
            r is Ok,
            *final(ctx) == *old(ctx),
            final(self).requests_view() == (old(self).requests_view() + 1) % 0x1_0000_0000_0000_0000,
            final(self).errors_view() == old(self).errors_view(),
            final(self).total_view() == old(self).total_view(),
    {
        self.requests = self.requests.wrapping_add(1);
        self.started = Some(instant_now());
        Ok(())
    }

    /// The step on the way out.
    pub fn leave<Res>(&mut self, ctx: &mut Context, result: Result<Res, MiddlewareError>) -> (r: Result<Res, MiddlewareError>)
        ensures
            r == result,
            *final(ctx) == *old(ctx),
            final(self).requests_view() == old(self).requests_view(),
            final(self).errors_view() == if result is Err { ((old(self).errors_view() + 1) % 0x1_0000_0000_0000_0000) as int } else { old(self).errors_view() as int },
    {
        let ms: u64 = match &self.started {
            Some(at) => elapsed_millis(at),
            None => 0,
        };
        self.count_answer(&result, ms);
        result
    }
}

impl<Req, Res> Middleware<Req, Res> for MetricsMiddleware {
    fn before(&mut self, ctx: &mut Context, request: &Req) -> Result<(), MiddlewareError> {
        self.enter(ctx)
    }

    fn after(&mut self, ctx: &mut Context, result: Result<Res, MiddlewareError>) -> Result<Res, MiddlewareError> {
        self.leave(ctx, result)
    }
}

/// Records how often a request may be tried.
pub struct RetryMiddleware {
    max_attempts: u32,
    delay: Duration,
}

impl RetryMiddleware {
    /// A retry middleware allowing `max_attempts` attempts, `delay` apart.
    pub fn new(max_attempts: u32, delay: Duration) -> (r: Self)
        ensures
            r.max_attempts_view() == max_attempts,
    {
        RetryMiddleware { max_attempts, delay }
    }

    /// The attempts allowed.
    pub closed spec fn max_attempts_view(&self) -> u32 {
        self.max_attempts
    }
}

impl RetryMiddleware {
    /// The step on the way in.
    pub fn enter(&mut self, ctx: &mut Context) -> (r: Result<(), MiddlewareError>)
        ensures
            r is Ok,
            attribute(final(ctx).attributes@, "retry.max_attempts"@) == Some(decimal(old(self).max_attempts_view() as nat)),
            forall|k: Seq<char>| k != "retry.max_attempts"@ ==> #[trigger] attribute(final(ctx).attributes@, k) == attribute(old(ctx).attributes@, k),
    {
        let mut text = String::new();
        push_decimal_u64(&mut text, self.max_attempts as u64);
        assert(text@ =~= decimal(self.max_attempts as nat));
        ctx.set_attribute("retry.max_attempts", text.as_str());
        Ok(())
    }

    /// The step on the way out.
    pub fn leave<Res>(&mut self, ctx: &mut Context, result: Result<Res, MiddlewareError>) -> (r: Result<Res, MiddlewareError>)
        ensures
            r == result,
            *final(ctx) == *old(ctx),
    {
        result
    }
}

impl<Req, Res> Middleware<Req, Res> for RetryMiddleware {
    fn before(&mut self, ctx: &mut Context, request: &Req) -> Result<(), MiddlewareError> {
        self.enter(ctx)
    }

    fn after(&mut self, ctx: &mut Context, result: Result<Res, MiddlewareError>) -> Result<Res, MiddlewareError> {
        self.leave(ctx, result)
    }
}

/// Turns requests away beyond a number per second.
pub struct RateLimitMiddleware {
    requests_per_second: u32,
    current_count: u64,
    last_reset: std::time::Instant,
}

impl RateLimitMiddleware {
    /// A rate limit of `requests_per_second`, its first second starting now.
    pub fn new(requests_per_second: u32) -> (r: Self)
        ensures
            r.limit_view() == requests_per_second,
            r.count_view() == 0,
    {
        RateLimitMiddleware { requests_per_second, current_count: 0, last_reset: instant_now() }
    }

    /// The requests allowed per second.
    pub closed spec fn limit_view(&self) -> u32 {
        self.requests_per_second
    }

    /// The requests counted in the current second.
    pub closed spec fn count_view(&self) -> u64 {
        self.current_count
    }

    /// Count a request, starting a new second first where `new_second`:
    /// whether it is within the limit of the second.
    pub fn take_slot(&mut self, new_second: bool) -> (r: bool)
        ensures
            r == ((if new_second { 0 } else { old(self).count_view() as int }) < old(self).limit_view()),
            final(self).count_view() == ((if new_second { 0 } else { old(self).count_view() as int }) + 1) % 0x1_0000_0000_0000_0000,
            final(self).limit_view() == old(self).limit_view(),
    {
        if new_second {
            self.current_count = 0;
        }
        let count = self.current_count;
        self.current_count = self.current_count.wrapping_add(1);
        count < self.requests_per_second as u64
    }
}

/// A request is counted against `limit` with `before` counted so far in
/// the second, the count starting over where `fresh`: it is let through
/// (`ok`) when fewer were counted than the limit, and the count becomes
/// `after`.
pub open spec fn slot_taken(before: u64, limit: u32, after: u64, ok: bool, fresh: bool) -> bool {
    let start = if fresh { 0 } else { before as int };
    &&& after == (start + 1) % 0x1_0000_0000_0000_0000
    &&& ok == (start < limit)
}

impl RateLimitMiddleware {
    /// The step on the way in: the request is counted in the current
    /// second, or in a new one where a second has passed since the current
    /// one began, and let through while within the limit.
    pub fn enter(&mut self, ctx: &mut Context) -> (r: Result<(), MiddlewareError>)
        ensures
            *final(ctx) == *old(ctx),
            final(self).limit_view() == old(self).limit_view(),
            slot_taken(old(self).count_view(), old(self).limit_view(), final(self).count_view(), r is Ok, true)
                || slot_taken(old(self).count_view(), old(self).limit_view(), final(self).count_view(), r is Ok, false),
            r is Err ==> r == Err::<(), MiddlewareError>(MiddlewareError::Rejected(r->Err_0->Rejected_0))
                && r->Err_0->Rejected_0@ == "Rate limit exceeded"@,
    {
        let now = instant_now();
        let since = duration_nanos(&instant_duration_since(&now, &self.last_reset));
        let new_second = since >= 1_000_000_000;
        if new_second {
            self.last_reset = now;
        }
        if self.take_slot(new_second) {
            Ok(())
        } else {
            Err(MiddlewareError::Rejected(to_owned_string("Rate limit exceeded")))
        }
    }

    /// The step on the way out.
    pub fn leave<Res>(&mut self, ctx: &mut Context, result: Result<Res, MiddlewareError>) -> (r: Result<Res, MiddlewareError>)
        ensures
            r == result,
            *final(ctx) == *old(ctx),
    {
        result
    }
}

impl<Req, Res> Middleware<Req, Res> for RateLimitMiddleware {
    fn before(&mut self, ctx: &mut Context, request: &Req) -> Result<(), MiddlewareError> {
        self.enter(ctx)
    }

    fn after(&mut self, ctx: &mut Context, result: Result<Res, MiddlewareError>) -> Result<Res, MiddlewareError> {
        self.leave(ctx, result)
    }
}

/// Gives each request a correlation identifier, unless it has one.
pub struct CorrelationMiddleware;

impl CorrelationMiddleware {
    /// The step on the way in.
    pub fn enter(&mut self, ctx: &mut Context) -> (r: Result<(), MiddlewareError>)
        ensures
            r is Ok,
            attribute(old(ctx).attributes@, "correlation_id"@) is Some ==> *final(ctx) == *old(ctx),
            attribute(old(ctx).attributes@, "correlation_id"@) is None ==> attribute(final(ctx).attributes@, "correlation_id"@) is Some
                && attribute(final(ctx).attributes@, "correlation_id"@)->0.len() == 36
                && forall|k: Seq<char>| k != "correlation_id"@ ==> #[trigger] attribute(final(ctx).attributes@, k) == attribute(old(ctx).attributes@, k),
    {
        if ctx.get_attribute("correlation_id").is_none() {
            let id = uuid_text(&new_uuid());
            ctx.set_attribute("correlation_id", id.as_str());
        }
        Ok(())
    }

    /// The step on the way out.
    pub fn leave<Res>(&mut self, ctx: &mut Context, result: Result<Res, MiddlewareError>) -> (r: Result<Res, MiddlewareError>)
        ensures
            r == result,
            *final(ctx) == *old(ctx),
    {
        result
    }
}

impl<Req, Res> Middleware<Req, Res> for CorrelationMiddleware {
    fn before(&mut self, ctx: &mut Context, request: &Req) -> Result<(), MiddlewareError> {
        self.enter(ctx)
    }

    fn after(&mut self, ctx: &mut Context, result: Result<Res, MiddlewareError>) -> Result<Res, MiddlewareError> {
        self.leave(ctx, result)
    }
}

/// A handler that applies a function to the request.
#[verifier::reject_recursive_types(Req)]
#[verifier::reject_recursive_types(Res)]
pub struct MapHandler<F, Req, Res> where F: Fn(Req) -> Result<Res, MiddlewareError> {
    f: F,
    _req: std::marker::PhantomData<Req>,
    _res: std::marker::PhantomData<Res>,
}

impl<F, Req, Res> MapHandler<F, Req, Res> where F: Fn(Req) -> Result<Res, MiddlewareError> {
    /// The function applied.
    pub closed spec fn function(&self) -> F {
        self.f
    }

    #[verifier::type_invariant]
    spec fn callable(&self) -> bool {
        forall|r: Req| call_requires(self.f, (r,))
    }

    /// A handler applying `f`, which takes every request.
    pub fn new(f: F) -> (r: Self)
        requires
            forall|r: Req| call_requires(f, (r,)),
        ensures
            r.function() == f,
    {
        MapHandler { f, _req: std::marker::PhantomData, _res: std::marker::PhantomData }
    }
}

impl<F, Req, Res> Handler<Req, Res> for MapHandler<F, Req, Res> where F: Fn(Req) -> Result<Res, MiddlewareError> {
    fn handle(&self, ctx: &mut Context, request: Req) -> (r: Result<Res, MiddlewareError>)
        ensures
            call_ensures(self.function(), (request,), r),
            *final(ctx) == *old(ctx),
    {
        proof {
            use_type_invariant(self);
        }
        (self.f)(request)
    }
}

} // verus!
