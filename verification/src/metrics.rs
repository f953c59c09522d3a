//! Named metrics with labels: counters, gauges, their registry with an
//! optional name prefix, snapshots of metric values, and the Prometheus
//! text format and the exporters' names.

use vstd::prelude::*;
use crate::multimap::{distinct_keys, has_key, key_index};
use crate::pairs::{find_pair, param_views, put_param, put_param_exec};
use crate::text::{decimal, push_decimal_u64, push_decimal_i64, signed_decimal, str_eq, string_push_str, to_owned_string};

verus! {

/// Errors of the metrics system.
#[derive(Debug, Clone, PartialEq, Eq)]
pub enum MetricsError {
    NotFound(String),
    TypeMismatch { expected: String, actual: String },
    ExportFailed(String),
    InvalidLabel(String),
}

/// The kinds of metric.
#[derive(Debug, Clone, Copy, PartialEq, Eq, Structural)]
pub enum MetricType {
    Counter,
    Gauge,
    Histogram,
    Summary,
}

/// Labels of a metric: distinct names with a value each, in the order the
/// names were first set.
#[derive(Debug, Clone, PartialEq, Eq)]
pub struct Labels {
    pairs: Vec<(String, String)>,
}

impl Labels {
    /// The labels by view.
    pub closed spec fn pairs(&self) -> Seq<(Seq<char>, Seq<char>)> {
        param_views(self.pairs@)
    }

    /// No name is set twice.
    pub closed spec fn wf(&self) -> bool {
        distinct_keys(self.pairs())
    }

    /// No labels.
    pub fn new() -> (r: Self)
        ensures
            r.wf(),
            r.pairs() == Seq::<(Seq<char>, Seq<char>)>::empty(),
    {
        let r = Labels { pairs: Vec::new() };
        assert(r.pairs() =~= Seq::<(Seq<char>, Seq<char>)>::empty());
        r
    }

    /// The same labels with `key` set to `value`.
    pub fn add(self, key: &str, value: &str) -> (r: Self)
        requires
            self.wf(),
        ensures
            r.wf(),
            r.pairs() == put_param(self.pairs(), key@, value@),
    {
        let mut pairs = self.pairs;
        put_param_exec(&mut pairs, to_owned_string(key), to_owned_string(value));
        Labels { pairs }
    }

    /// The value of label `key`.
    pub fn get(&self, key: &str) -> (r: Option<&str>)
        requires
            self.wf(),
        ensures
            r is Some <==> has_key(self.pairs(), key@),
            r matches Some(v) ==> self.pairs()[key_index(self.pairs(), key@)].1 == v@,
    {
        match find_pair(&self.pairs, key) {
            Some(i) => Some(self.pairs[i].1.as_str()),
            None => None,
        }
    }

    /// Whether there is no label.
    pub fn is_empty(&self) -> (r: bool)
        ensures
            r == (self.pairs().len() == 0),
    {
        self.pairs.len() == 0
    }

    /// Every label with its value, in order.
    pub fn iter(&self) -> (r: Vec<(&String, &String)>)
        ensures
            r@.len() == self.pairs().len(),
            forall|i: int|
                0 <= i < r@.len() ==> (#[trigger] r@[i]).0@ == self.pairs()[i].0 && r@[i].1@
                    == self.pairs()[i].1,
    {
        let mut out: Vec<(&String, &String)> = Vec::new();
        let mut i: usize = 0;
        while i < self.pairs.len()
            invariant
                i <= self.pairs@.len(),
                out@.len() == i,
                forall|j: int|
                    0 <= j < i ==> (#[trigger] out@[j]).0@ == self.pairs@[j].0@ && out@[j].1@
                        == self.pairs@[j].1@,
            decreases self.pairs@.len() - i,
        {
            out.push((&self.pairs[i].0, &self.pairs[i].1));
            i = i + 1;
        }
        out
    }
}

impl Default for Labels {
    fn default() -> (r: Self)
        ensures
            r.wf(),
            r.pairs() == Seq::<(Seq<char>, Seq<char>)>::empty(),
    {
        Labels::new()
    }
}

/// A named counter that only increases; additions wrap at `u64::MAX`.
#[derive(Debug, Clone)]
pub struct Counter {
    name: String,
    help: String,
    value: u64,
    labels: Labels,
}

impl Counter {
    /// The counter's name.
    pub closed spec fn name_view(&self) -> Seq<char> {
        self.name@
    }

    /// The counter's help text.
    pub closed spec fn help_view(&self) -> Seq<char> {
        self.help@
    }

    /// The counter's value.
    pub closed spec fn value(&self) -> u64 {
        self.value
    }

    /// The counter's labels.
    pub closed spec fn label_pairs(&self) -> Seq<(Seq<char>, Seq<char>)> {
        self.labels.pairs()
    }

    /// A counter at zero, without labels.
    pub fn new(name: &str, help: &str) -> (r: Self)
        ensures
            r.name_view() == name@,
            r.help_view() == help@,
            r.value() == 0,
            r.label_pairs() == Seq::<(Seq<char>, Seq<char>)>::empty(),
    {
        Counter { name: to_owned_string(name), help: to_owned_string(help), value: 0, labels: Labels::new() }
    }

    /// The same counter with `labels`.
    pub fn with_labels(self, labels: Labels) -> (r: Self)
        ensures
            r.name_view() == self.name_view(),
            r.help_view() == self.help_view(),
            r.value() == self.value(),
            r.label_pairs() == labels.pairs(),
    {
        Counter { labels, ..self }
    }

    /// Count one.
    pub fn inc(&mut self)
        ensures
            final(self).value() == vstd::wrapping::u64_specs::wrapping_add(old(self).value(), 1),
            final(self).name_view() == old(self).name_view(),
            final(self).help_view() == old(self).help_view(),
            final(self).label_pairs() == old(self).label_pairs(),
    {
        self.value = self.value.wrapping_add(1);
    }

    /// Count `value` more.
    pub fn add(&mut self, value: u64)
        ensures
            final(self).value() == vstd::wrapping::u64_specs::wrapping_add(old(self).value(), value),
            final(self).name_view() == old(self).name_view(),
            final(self).help_view() == old(self).help_view(),
            final(self).label_pairs() == old(self).label_pairs(),
    {
        self.value = self.value.wrapping_add(value);
    }

    /// The current value.
    pub fn get(&self) -> (r: u64)
        ensures
            r == self.value(),
    {
        self.value
    }

    /// The name.
    pub fn name(&self) -> (r: &str)
        ensures
            r@ == self.name_view(),
    {
        self.name.as_str()
    }

    /// The help text.
    pub fn help(&self) -> (r: &str)
        ensures
            r@ == self.help_view(),
    {
        self.help.as_str()
    }
}

/// A named value that goes up and down; changes wrap at the ends of `i64`.
#[derive(Debug, Clone)]
pub struct Gauge {
    name: String,
    help: String,
    value: i64,
    labels: Labels,
}

impl Gauge {
    /// The gauge's name.
    pub closed spec fn name_view(&self) -> Seq<char> {
        self.name@
    }

    /// The gauge's value.
    pub closed spec fn value(&self) -> i64 {
        self.value
    }

    /// The gauge's labels.
    pub closed spec fn label_pairs(&self) -> Seq<(Seq<char>, Seq<char>)> {
        self.labels.pairs()
    }

    /// A gauge at zero, without labels.
    pub fn new(name: &str, help: &str) -> (r: Self)
        ensures
            r.name_view() == name@,
            r.value() == 0,
            r.label_pairs() == Seq::<(Seq<char>, Seq<char>)>::empty(),
    {
        Gauge { name: to_owned_string(name), help: to_owned_string(help), value: 0, labels: Labels::new() }
    }

    /// The same gauge with `labels`.
    pub fn with_labels(self, labels: Labels) -> (r: Self)
        ensures
            r.name_view() == self.name_view(),
            r.value() == self.value(),
            r.label_pairs() == labels.pairs(),
    {
        Gauge { labels, ..self }
    }

    /// Set the value.
    pub fn set(&mut self, value: i64)
        ensures
            final(self).value() == value,
            final(self).name_view() == old(self).name_view(),
    {
        self.value = value;
    }

    /// Up by one.
    pub fn inc(&mut self)
        ensures
            final(self).value() == vstd::wrapping::i64_specs::wrapping_add(old(self).value(), 1),
            final(self).name_view() == old(self).name_view(),
    {
        self.value = self.value.wrapping_add(1);
    }

    /// Down by one.
    pub fn dec(&mut self)
        ensures
            final(self).value() == vstd::wrapping::i64_specs::wrapping_sub(old(self).value(), 1),
            final(self).name_view() == old(self).name_view(),
    {
        self.value = self.value.wrapping_sub(1);
    }

    /// Up by `value`.
    pub fn add(&mut self, value: i64)
        ensures
            final(self).value() == vstd::wrapping::i64_specs::wrapping_add(old(self).value(), value),
            final(self).name_view() == old(self).name_view(),
    {
        self.value = self.value.wrapping_add(value);
    }

    /// Down by `value`.
    pub fn sub(&mut self, value: i64)
        ensures
            final(self).value() == vstd::wrapping::i64_specs::wrapping_sub(old(self).value(), value),
            final(self).name_view() == old(self).name_view(),
    {
        self.value = self.value.wrapping_sub(value);
    }

    /// The current value.
    pub fn get(&self) -> (r: i64)
        ensures
            r == self.value(),
    {
        self.value
    }

    /// The name.
    pub fn name(&self) -> (r: &str)
        ensures
            r@ == self.name_view(),
    {
        self.name.as_str()
    }
}

/// The exporter that writes the Prometheus text format.
#[derive(Debug, Clone, Copy, PartialEq, Eq, Structural)]
pub struct PrometheusExporter;

impl PrometheusExporter {
    /// The exporter.
    pub fn new() -> (r: Self)
        ensures
            r == PrometheusExporter,
    {
        PrometheusExporter
    }

    /// The exporter's name.
    pub fn name(&self) -> (r: &'static str)
        ensures
            r@ == "prometheus"@,
    {
        "prometheus"
    }
}

impl Default for PrometheusExporter {
    fn default() -> (r: Self)
        ensures
            r == PrometheusExporter,
    {
        PrometheusExporter
    }
}

/// The exporter that writes JSON.
#[derive(Debug, Clone, Copy, PartialEq, Eq, Structural)]
pub struct JsonExporter;

impl JsonExporter {
    /// The exporter.
    pub fn new() -> (r: Self)
        ensures
            r == JsonExporter,
    {
        JsonExporter
    }

    /// The exporter's name.
    pub fn name(&self) -> (r: &'static str)
        ensures
            r@ == "json"@,
    {
        "json"
    }
}

impl Default for JsonExporter {
    fn default() -> (r: Self)
        ensures
            r == JsonExporter,
    {
        JsonExporter
    }
}

/// The name a registry gives a metric: `prefix_name`, or `name` alone.
pub open spec fn full_name(prefix: Option<Seq<char>>, name: Seq<char>) -> Seq<char> {
    match prefix {
        Some(p) => p + "_"@ + name,
        None => name,
    }
}

/// Counters and gauges by full name; registering a name again replaces
/// the first metric under it.
pub struct MetricsRegistry {
    counters: Vec<Counter>,
    gauges: Vec<Gauge>,
    prefix: Option<String>,
}

/// The names of a list of counters.
pub open spec fn counter_names(cs: Seq<Counter>) -> Seq<Seq<char>> {
    cs.map_values(|c: Counter| c.name_view())
}

/// The names of a list of gauges.
pub open spec fn gauge_names(gs: Seq<Gauge>) -> Seq<Seq<char>> {
    gs.map_values(|g: Gauge| g.name_view())
}

impl MetricsRegistry {
    /// The prefix, by view.
    pub closed spec fn prefix_view(&self) -> Option<Seq<char>> {
        match self.prefix {
            Some(p) => Some(p@),
            None => None,
        }
    }

    /// The registered counters.
    pub closed spec fn counter_list(&self) -> Seq<Counter> {
        self.counters@
    }

    /// The registered gauges.
    pub closed spec fn gauge_list(&self) -> Seq<Gauge> {
        self.gauges@
    }

    /// An empty registry without prefix.
    pub fn new() -> (r: Self)
        ensures
            r.prefix_view() is None,
            r.counter_list().len() == 0,
            r.gauge_list().len() == 0,
    {
        MetricsRegistry { counters: Vec::new(), gauges: Vec::new(), prefix: None }
    }

    /// An empty registry whose metric names start with `prefix_`.
    pub fn with_prefix(prefix: &str) -> (r: Self)
        ensures
            r.prefix_view() == Some(prefix@),
            r.counter_list().len() == 0,
            r.gauge_list().len() == 0,
    {
        MetricsRegistry { counters: Vec::new(), gauges: Vec::new(), prefix: Some(to_owned_string(prefix)) }
    }

    /// The full name of `name` in this registry.
    fn full_name(&self, name: &str) -> (r: String)
        ensures
            r@ == full_name(self.prefix_view(), name@),
    {
        match &self.prefix {
            Some(p) => {
                let mut out = String::new();
                string_push_str(&mut out, p.as_str());
                string_push_str(&mut out, "_");
                string_push_str(&mut out, name);
                assert(out@ =~= full_name(self.prefix_view(), name@));
                out
            },
            None => to_owned_string(name),
        }
    }

    /// Register a counter at zero under the full name of `name`, replacing
    /// one registered under that name; the registered counter.
    pub fn register_counter(&mut self, name: &str, help: &str) -> (r: &mut Counter)
        ensures
            r.name_view() == full_name(old(self).prefix_view(), name@),
            r.help_view() == help@,
            r.value() == 0,
            final(self).prefix_view() == old(self).prefix_view(),
            match counter_names(old(self).counter_list()).index_of_first(full_name(old(self).prefix_view(), name@)) {
                Some(i) => final(self).counter_list() == old(self).counter_list().update(i, *final(r)),
                None => final(self).counter_list() == old(self).counter_list().push(*final(r)),
            },
            final(self).gauge_list() == old(self).gauge_list(),
    {
        let ghost old_list = self.counters@;
        let ghost ns = counter_names(old_list);
        let full = self.full_name(name);
        let counter = Counter::new(full.as_str(), help);
        proof {
            ns.index_of_first_ensures(full@);
        }
        let mut i: usize = 0;
        while i < self.counters.len()
            invariant
                self.counters@ == old_list,
                old_list == old(self).counters@,
                ns == counter_names(old_list),
                full@ == full_name(old(self).prefix_view(), name@),
                counter.name_view() == full@,
                counter.help_view() == help@,
                counter.value() == 0,
                self.prefix == old(self).prefix,
                self.gauges == old(self).gauges,
                i <= self.counters@.len(),
                forall|j: int| 0 <= j < i ==> ns[j] != full@,
            decreases self.counters@.len() - i,
        {
            assert(ns[i as int] == self.counters@[i as int].name_view());
            if str_eq(self.counters[i].name.as_str(), full.as_str()) {
                proof {
                    assert(ns.contains(full@));
                    ns.index_of_first_ensures(full@);
                    let k = ns.index_of_first(full@)->0;
                    if k < i {
                        assert(ns[k] == full@);
                    }
                    if k > i {
                        assert(ns[i as int] == full@);
                    }
                    assert(k == i);
                }
                self.counters[i] = counter;
                return &mut self.counters[i];
            }
            i = i + 1;
        }
        proof {
            assert(!ns.contains(full@));
        }
        self.counters.push(counter);
        let last = self.counters.len() - 1;
        &mut self.counters[last]
    }

    /// The counter registered under the full name of `name`.
    pub fn get_counter(&self, name: &str) -> (r: Option<&Counter>)
        ensures
            r matches Some(c) ==> c.name_view() == full_name(self.prefix_view(), name@)
                && self.counter_list().contains(*c),
            r is None ==> forall|i: int|
                0 <= i < self.counter_list().len() ==> (#[trigger] self.counter_list()[i]).name_view()
                    != full_name(self.prefix_view(), name@),
    {
        let full = self.full_name(name);
        let mut i: usize = 0;
        while i < self.counters.len()
            invariant
                i <= self.counters@.len(),
                full@ == full_name(self.prefix_view(), name@),
                forall|j: int| 0 <= j < i ==> (#[trigger] self.counters@[j]).name_view() != full@,
            decreases self.counters@.len() - i,
        {
            if str_eq(self.counters[i].name.as_str(), full.as_str()) {
                return Some(&self.counters[i]);
            }
            i = i + 1;
        }
        None
    }

    /// Register a gauge at zero under the full name of `name`, replacing one
    /// registered under that name; the registered gauge.
    pub fn register_gauge(&mut self, name: &str, help: &str) -> (r: &mut Gauge)
        ensures
            r.name_view() == full_name(old(self).prefix_view(), name@),
            r.value() == 0,
            final(self).prefix_view() == old(self).prefix_view(),
            match gauge_names(old(self).gauge_list()).index_of_first(full_name(old(self).prefix_view(), name@)) {
                Some(i) => final(self).gauge_list() == old(self).gauge_list().update(i, *final(r)),
                None => final(self).gauge_list() == old(self).gauge_list().push(*final(r)),
            },
            final(self).counter_list() == old(self).counter_list(),
    {
        let ghost old_list = self.gauges@;
        let ghost ns = gauge_names(old_list);
        let full = self.full_name(name);
        let gauge = Gauge::new(full.as_str(), help);
        proof {
            ns.index_of_first_ensures(full@);
        }
        let mut i: usize = 0;
        while i < self.gauges.len()
            invariant
                self.gauges@ == old_list,
                old_list == old(self).gauges@,
                ns == gauge_names(old_list),
                full@ == full_name(old(self).prefix_view(), name@),
                gauge.name_view() == full@,
                gauge.value() == 0,
                self.prefix == old(self).prefix,
                self.counters == old(self).counters,
                i <= self.gauges@.len(),
                forall|j: int| 0 <= j < i ==> ns[j] != full@,
            decreases self.gauges@.len() - i,
        {
            assert(ns[i as int] == self.gauges@[i as int].name_view());
            if str_eq(self.gauges[i].name.as_str(), full.as_str()) {
                proof {
                    assert(ns.contains(full@));
                    ns.index_of_first_ensures(full@);
                    let k = ns.index_of_first(full@)->0;
                    if k < i {
                        assert(ns[k] == full@);
                    }
                    if k > i {
                        assert(ns[i as int] == full@);
                    }
                    assert(k == i);
                }
                self.gauges[i] = gauge;
                return &mut self.gauges[i];
            }
            i = i + 1;
        }
        proof {
            assert(!ns.contains(full@));
        }
        self.gauges.push(gauge);
        let last = self.gauges.len() - 1;
        &mut self.gauges[last]
    }

    /// The gauge registered under the full name of `name`.
    pub fn get_gauge(&self, name: &str) -> (r: Option<&Gauge>)
        ensures
            r matches Some(g) ==> g.name_view() == full_name(self.prefix_view(), name@)
                && self.gauge_list().contains(*g),
            r is None ==> forall|i: int|
                0 <= i < self.gauge_list().len() ==> (#[trigger] self.gauge_list()[i]).name_view()
                    != full_name(self.prefix_view(), name@),
    {
        let full = self.full_name(name);
        let mut i: usize = 0;
        while i < self.gauges.len()
            invariant
                i <= self.gauges@.len(),
                full@ == full_name(self.prefix_view(), name@),
                forall|j: int| 0 <= j < i ==> (#[trigger] self.gauges@[j]).name_view() != full@,
            decreases self.gauges@.len() - i,
        {
            if str_eq(self.gauges[i].name.as_str(), full.as_str()) {
                return Some(&self.gauges[i]);
            }
            i = i + 1;
        }
        None
    }
}

impl Default for MetricsRegistry {
    fn default() -> (r: Self)
        ensures
            r.prefix_view() is None,
            r.counter_list().len() == 0,
            r.gauge_list().len() == 0,
    {
        MetricsRegistry::new()
    }
}

/// A bucket of a histogram snapshot: its upper bound, as the text of the
/// `f64` bound, and the observations it counts.
#[derive(Debug, Clone, PartialEq, Eq)]
pub struct Bucket {
    pub upper_bound_text: String,
    pub count: u64,
}

/// The value of a metric snapshot. Floating-point figures are carried as
/// their text.
#[derive(Debug, Clone, PartialEq, Eq)]
pub enum MetricData {
    Counter(u64),
    Gauge(i64),
    Histogram { buckets: Vec<Bucket>, sum_text: String, count: u64 },
    /// Quantiles as (quantile, value) texts.
    Summary { quantiles: Vec<(String, String)>, sum_text: String, count: u64 },
}

/// A snapshot of a metric.
#[derive(Debug, Clone)]
pub struct MetricValue {
    pub name: String,
    pub metric_type: MetricType,
    pub help: String,
    pub labels: Labels,
    /// In milliseconds since the Unix epoch.
    pub timestamp_millis: i64,
    pub value: MetricData,
}

/// The Prometheus name of a metric type.
pub open spec fn type_text(t: MetricType) -> Seq<char> {
    match t {
        MetricType::Counter => "counter"@,
        MetricType::Gauge => "gauge"@,
        MetricType::Histogram => "histogram"@,
        MetricType::Summary => "summary"@,
    }
}

/// The labels as `name="value"` joined by commas.
pub open spec fn label_list(ps: Seq<(Seq<char>, Seq<char>)>) -> Seq<char>
    decreases ps.len(),
{
    if ps.len() == 0 {
        Seq::empty()
    } else {
        let prev = label_list(ps.drop_last());
        let one = ps.last().0 + "=\""@ + ps.last().1 + "\""@;
        if ps.len() == 1 { one } else { prev + ","@ + one }
    }
}

/// The label part of a sample line: nothing without labels, else the list
/// in braces.
pub open spec fn label_block(ps: Seq<(Seq<char>, Seq<char>)>) -> Seq<char> {
    if ps.len() == 0 { Seq::empty() } else { "{"@ + label_list(ps) + "}"@ }
}

/// The labels following a bucket's or quantile's own label: nothing
/// without labels, else a comma and the list.
pub open spec fn label_tail(ps: Seq<(Seq<char>, Seq<char>)>) -> Seq<char> {
    if ps.len() == 0 { Seq::empty() } else { ","@ + label_list(ps) }
}

/// The bucket lines of a histogram named `name`.
pub open spec fn bucket_lines(name: Seq<char>, ps: Seq<(Seq<char>, Seq<char>)>, bs: Seq<Bucket>) -> Seq<char>
    decreases bs.len(),
{
    if bs.len() == 0 {
        Seq::empty()
    } else {
        bucket_lines(name, ps, bs.drop_last()) + name + "_bucket{le=\""@ + bs.last().upper_bound_text@ + "\""@
            + label_tail(ps) + "} "@ + decimal(bs.last().count as nat) + "\n"@
    }
}

/// The quantile lines of a summary named `name`.
pub open spec fn quantile_lines(name: Seq<char>, ps: Seq<(Seq<char>, Seq<char>)>, qs: Seq<(String, String)>) -> Seq<char>
    decreases qs.len(),
{
    if qs.len() == 0 {
        Seq::empty()
    } else {
        quantile_lines(name, ps, qs.drop_last()) + name + "{quantile=\""@ + qs.last().0@ + "\""@ + label_tail(ps)
            + "} "@ + qs.last().1@ + "\n"@
    }
}

/// The `_sum` and `_count` lines.
pub open spec fn total_lines(name: Seq<char>, ps: Seq<(Seq<char>, Seq<char>)>, sum: Seq<char>, count: u64) -> Seq<char> {
    name + "_sum"@ + label_block(ps) + " "@ + sum + "\n"@ + name + "_count"@ + label_block(ps) + " "@ + decimal(
        count as nat,
    ) + "\n"@
}

/// The sample lines of a metric named `name` with labels `ps`.
pub open spec fn sample_lines(name: Seq<char>, ps: Seq<(Seq<char>, Seq<char>)>, v: MetricData) -> Seq<char> {
    match v {
        MetricData::Counter(c) => name + label_block(ps) + " "@ + decimal(c as nat) + "\n"@,
        MetricData::Gauge(g) => name + label_block(ps) + " "@ + signed_decimal(g as int) + "\n"@,
        MetricData::Histogram { buckets, sum_text, count } => bucket_lines(name, ps, buckets@) + total_lines(
            name,
            ps,
            sum_text@,
            count,
        ),
        MetricData::Summary { quantiles, sum_text, count } => quantile_lines(name, ps, quantiles@) + total_lines(
            name,
            ps,
            sum_text@,
            count,
        ),
    }
}

/// A metric in Prometheus text format: its help line, its type line and
/// its samples.
pub open spec fn metric_text(m: MetricValue) -> Seq<char> {
    "# HELP "@ + m.name@ + " "@ + m.help@ + "\n"@ + "# TYPE "@ + m.name@ + " "@ + type_text(m.metric_type) + "\n"@
        + sample_lines(m.name@, m.labels.pairs(), m.value)
}

/// Metrics in Prometheus text format, one after the other.
pub open spec fn prometheus_text(ms: Seq<MetricValue>) -> Seq<char>
    decreases ms.len(),
{
    if ms.len() == 0 {
        Seq::empty()
    } else {
        prometheus_text(ms.drop_last()) + metric_text(ms.last())
    }
}

fn type_str(t: MetricType) -> (r: &'static str)
    ensures
        r@ == type_text(t),
{
    match t {
        MetricType::Counter => "counter",
        MetricType::Gauge => "gauge",
        MetricType::Histogram => "histogram",
        MetricType::Summary => "summary",
    }
}

impl Labels {
    /// Append the labels as `name="value"` joined by commas.
    fn push_list(&self, out: &mut String)
        ensures
            final(out)@ == old(out)@ + label_list(self.pairs()),
    {
        let ghost ps = self.pairs();
        let mut i: usize = 0;
        while i < self.pairs.len()
            invariant
                i <= self.pairs@.len(),
                ps == param_views(self.pairs@),
                out@ == old(out)@ + label_list(ps.take(i as int)),
            decreases self.pairs@.len() - i,
        {
            if i > 0 {
                string_push_str(out, ",");
            }
            string_push_str(out, self.pairs[i].0.as_str());
            string_push_str(out, "=\"");
            string_push_str(out, self.pairs[i].1.as_str());
            string_push_str(out, "\"");
            proof {
                let t = ps.take(i as int + 1);
                assert(t.drop_last() =~= ps.take(i as int));
                assert(t.last() == (self.pairs@[i as int].0@, self.pairs@[i as int].1@));
                if i == 0 {
                    assert(ps.take(0) =~= Seq::<(Seq<char>, Seq<char>)>::empty());
                }
                assert(out@ =~= old(out)@ + label_list(t));
            }
            i = i + 1;
        }
        assert(ps.take(i as int) =~= ps);
    }
}

impl PrometheusExporter {
    /// Append the `_sum` and `_count` lines.
    fn push_totals(out: &mut String, name: &str, labels: &Labels, sum: &str, count: u64)
        ensures
            final(out)@ == old(out)@ + total_lines(name@, labels.pairs(), sum@, count),
    {
        let ghost ps = labels.pairs();
        string_push_str(out, name);
        string_push_str(out, "_sum");
        Self::push_block(out, labels);
        string_push_str(out, " ");
        string_push_str(out, sum);
        string_push_str(out, "\n");
        string_push_str(out, name);
        string_push_str(out, "_count");
        Self::push_block(out, labels);
        string_push_str(out, " ");
        push_decimal_u64(out, count);
        string_push_str(out, "\n");
        assert(out@ =~= old(out)@ + total_lines(name@, ps, sum@, count));
    }

    /// Append the label block of a sample line.
    fn push_block(out: &mut String, labels: &Labels)
        ensures
            final(out)@ == old(out)@ + label_block(labels.pairs()),
    {
        if labels.pairs.len() > 0 {
            string_push_str(out, "{");
            labels.push_list(out);
            string_push_str(out, "}");
            assert(out@ =~= old(out)@ + label_block(labels.pairs()));
        } else {
            assert(out@ =~= old(out)@ + label_block(labels.pairs()));
        }
    }

    /// Append the labels following a bucket's or quantile's own label.
    fn push_tail(out: &mut String, labels: &Labels)
        ensures
            final(out)@ == old(out)@ + label_tail(labels.pairs()),
    {
        if labels.pairs.len() > 0 {
            string_push_str(out, ",");
            labels.push_list(out);
            assert(out@ =~= old(out)@ + label_tail(labels.pairs()));
        } else {
            assert(out@ =~= old(out)@ + label_tail(labels.pairs()));
        }
    }

    /// Append the sample lines of a metric.
    fn push_samples(out: &mut String, name: &str, labels: &Labels, value: &MetricData)
        ensures
            final(out)@ == old(out)@ + sample_lines(name@, labels.pairs(), *value),
    {
        let ghost ps = labels.pairs();
        match value {
            MetricData::Counter(c) => {
                string_push_str(out, name);
                Self::push_block(out, labels);
                string_push_str(out, " ");
                push_decimal_u64(out, *c);
                string_push_str(out, "\n");
                assert(out@ =~= old(out)@ + sample_lines(name@, ps, *value));
            },
            MetricData::Gauge(g) => {
                string_push_str(out, name);
                Self::push_block(out, labels);
                string_push_str(out, " ");
                push_decimal_i64(out, *g);
                string_push_str(out, "\n");
                assert(out@ =~= old(out)@ + sample_lines(name@, ps, *value));
            },
            MetricData::Histogram { buckets, sum_text, count } => {
                let mut i: usize = 0;
                while i < buckets.len()
                    invariant
                        i <= buckets@.len(),
                        ps == labels.pairs(),
                        out@ == old(out)@ + bucket_lines(name@, ps, buckets@.take(i as int)),
                    decreases buckets@.len() - i,
                {
                    string_push_str(out, name);
                    string_push_str(out, "_bucket{le=\"");
                    string_push_str(out, buckets[i].upper_bound_text.as_str());
                    string_push_str(out, "\"");
                    Self::push_tail(out, labels);
                    string_push_str(out, "} ");
                    push_decimal_u64(out, buckets[i].count);
                    string_push_str(out, "\n");
                    proof {
                        let t = buckets@.take(i as int + 1);
                        assert(t.drop_last() =~= buckets@.take(i as int));
                        assert(t.last() == buckets@[i as int]);
                        assert(out@ =~= old(out)@ + bucket_lines(name@, ps, t));
                    }
                    i = i + 1;
                }
                assert(buckets@.take(i as int) =~= buckets@);
                Self::push_totals(out, name, labels, sum_text.as_str(), *count);
                assert(out@ =~= old(out)@ + sample_lines(name@, ps, *value));
            },
            MetricData::Summary { quantiles, sum_text, count } => {
                let mut i: usize = 0;
                while i < quantiles.len()
                    invariant
                        i <= quantiles@.len(),
                        ps == labels.pairs(),
                        out@ == old(out)@ + quantile_lines(name@, ps, quantiles@.take(i as int)),
                    decreases quantiles@.len() - i,
                {
                    string_push_str(out, name);
                    string_push_str(out, "{quantile=\"");
                    string_push_str(out, quantiles[i].0.as_str());
                    string_push_str(out, "\"");
                    Self::push_tail(out, labels);
                    string_push_str(out, "} ");
                    string_push_str(out, quantiles[i].1.as_str());
                    string_push_str(out, "\n");
                    proof {
                        let t = quantiles@.take(i as int + 1);
                        assert(t.drop_last() =~= quantiles@.take(i as int));
                        assert(t.last() == quantiles@[i as int]);
                        assert(out@ =~= old(out)@ + quantile_lines(name@, ps, t));
                    }
                    i = i + 1;
                }
                assert(quantiles@.take(i as int) =~= quantiles@);
                Self::push_totals(out, name, labels, sum_text.as_str(), *count);
                assert(out@ =~= old(out)@ + sample_lines(name@, ps, *value));
            },
        }
    }

    /// Append one metric in Prometheus text format.
    fn push_metric(out: &mut String, m: &MetricValue)
        ensures
            final(out)@ == old(out)@ + metric_text(*m),
    {
        string_push_str(out, "# HELP ");
        string_push_str(out, m.name.as_str());
        string_push_str(out, " ");
        string_push_str(out, m.help.as_str());
        string_push_str(out, "\n");
        string_push_str(out, "# TYPE ");
        string_push_str(out, m.name.as_str());
        string_push_str(out, " ");
        string_push_str(out, type_str(m.metric_type));
        string_push_str(out, "\n");
        let ghost mid = out@;
        Self::push_samples(out, m.name.as_str(), &m.labels, &m.value);
        assert(out@ =~= old(out)@ + metric_text(*m));
    }

    /// The metrics in Prometheus text format: for each, a help line, a type
    /// line and its samples, labels in braces.
    pub fn format(metrics: &Vec<MetricValue>) -> (r: String)
        ensures
            r@ == prometheus_text(metrics@),
    {
        let mut out = String::new();
        let mut i: usize = 0;
        assert(out@ =~= prometheus_text(metrics@.take(0)));
        while i < metrics.len()
            invariant
                i <= metrics@.len(),
                out@ == prometheus_text(metrics@.take(i as int)),
            decreases metrics@.len() - i,
        {
            let ghost before = out@;
            Self::push_metric(&mut out, &metrics[i]);
            proof {
                let t = metrics@.take(i as int + 1);
                assert(t.drop_last() =~= metrics@.take(i as int));
                assert(t.last() == metrics@[i as int]);
                assert(out@ == before + metric_text(t.last()));
            }
            i = i + 1;
        }
        assert(metrics@.take(i as int) =~= metrics@);
        out
    }
}

} // verus!
