//! Hierarchical memory: memories move from working memory to short-term
//! memory and on to long-term memory as they are evicted, expire or prove
//! important; facts and procedures are learned for good.
//!
//! Importance is given in thousandths; instants in milliseconds since the
//! Unix epoch. How much a memory still matters as time passes is reckoned
//! by the caller and handed in as a rank, higher first.

use vstd::prelude::*;
use crate::clock::utc_now_millis;
use crate::ids::{new_uuid, uuid_eq};
use crate::memory::{layer_retention, next_layer, MemoryLayer, MemorySource, SourceType};
use crate::memory_graph::copy_strings;
use crate::text::to_owned_string;

verus! {

/// When a memory stored in `l` at `now` expires, if ever, held within the
/// range of `i64`.
pub open spec fn expiry(l: MemoryLayer, now: i64) -> Option<i64> {
    match layer_retention(l) {
        Some(d) => Some(if now + d > i64::MAX { i64::MAX } else { (now + d) as i64 }),
        None => None,
    }
}

fn expiry_exec(l: MemoryLayer, now: i64) -> (r: Option<i64>)
    ensures
        r == expiry(l, now),
{
    match l.default_retention_millis() {
        Some(d) => Some(if now > i64::MAX - d { i64::MAX } else { now + d }),
        None => None,
    }
}

/// A memory in one of the layers.
#[derive(Debug)]
pub struct LayeredMemory {
    pub id: uuid::Uuid,
    pub layer: MemoryLayer,
    pub content: String,
    pub summary: Option<String>,
    /// The embedding of the content, each component an `f32` by its bits.
    pub embedding_bits: Option<Vec<u32>>,
    /// In thousandths, at most 1000.
    pub importance_permille: u32,
    pub access_count: u64,
    pub last_accessed_millis: i64,
    pub created_at_millis: i64,
    pub expires_at_millis: Option<i64>,
    pub related: Vec<uuid::Uuid>,
    pub tags: Vec<String>,
    pub source: MemorySource,
    /// Named values, no name twice.
    pub metadata: Vec<(String, String)>,
}

/// `m` is due for promotion: in working memory when important (above 700)
/// or used more than three times, in short-term memory when very
/// important (above 800) or used more than ten times.
pub open spec fn due_for_promotion(m: LayeredMemory) -> bool {
    match m.layer {
        MemoryLayer::Working => m.importance_permille > 700 || m.access_count > 3,
        MemoryLayer::ShortTerm => m.importance_permille > 800 || m.access_count > 10,
        _ => false,
    }
}

/// `m` has expired by `now`.
pub open spec fn expired_at(m: LayeredMemory, now: i64) -> bool {
    match m.expires_at_millis {
        Some(e) => now > e,
        None => false,
    }
}

/// `m` promoted at `now`: one layer on, expiring as that layer keeps it.
pub open spec fn promoted_at(m: LayeredMemory, now: i64) -> LayeredMemory {
    LayeredMemory { layer: next_layer(m.layer), expires_at_millis: expiry(next_layer(m.layer), now), ..m }
}

/// `a` and `b` hold the same values.
pub open spec fn same_memory(a: LayeredMemory, b: LayeredMemory) -> bool {
    &&& a.id == b.id
    &&& a.layer == b.layer
    &&& a.content == b.content
    &&& a.summary == b.summary
    &&& match a.embedding_bits {
        Some(x) => b.embedding_bits matches Some(y) && x@ == y@,
        None => b.embedding_bits is None,
    }
    &&& a.importance_permille == b.importance_permille
    &&& a.access_count == b.access_count
    &&& a.last_accessed_millis == b.last_accessed_millis
    &&& a.created_at_millis == b.created_at_millis
    &&& a.expires_at_millis == b.expires_at_millis
    &&& a.related@ == b.related@
    &&& a.tags@ == b.tags@
    &&& a.source == b.source
    &&& a.metadata@ == b.metadata@
}

/// `a` and `b` hold memories that are the same, one by one.
pub open spec fn same_memories(a: Seq<LayeredMemory>, b: Seq<LayeredMemory>) -> bool {
    &&& a.len() == b.len()
    &&& forall|i: int| 0 <= i < a.len() ==> same_memory(#[trigger] a[i], b[i])
}

fn copy_u32s(v: &Vec<u32>) -> (r: Vec<u32>)
    ensures
        r@ == v@,
{
    let mut out: Vec<u32> = Vec::new();
    let mut i: usize = 0;
    while i < v.len()
        invariant
            i <= v@.len(),
            out@ == v@.take(i as int),
        decreases v@.len() - i,
    {
        out.push(v[i]);
        assert(v@.take(i as int + 1) =~= v@.take(i as int).push(v@[i as int]));
        i = i + 1;
    }
    assert(v@.take(i as int) =~= v@);
    out
}

fn copy_ids(v: &Vec<uuid::Uuid>) -> (r: Vec<uuid::Uuid>)
    ensures
        r@ == v@,
{
    let mut out: Vec<uuid::Uuid> = Vec::new();
    let mut i: usize = 0;
    while i < v.len()
        invariant
            i <= v@.len(),
            out@ == v@.take(i as int),
        decreases v@.len() - i,
    {
        out.push(v[i]);
        assert(v@.take(i as int + 1) =~= v@.take(i as int).push(v@[i as int]));
        i = i + 1;
    }
    assert(v@.take(i as int) =~= v@);
    out
}

fn copy_pairs(v: &Vec<(String, String)>) -> (r: Vec<(String, String)>)
    ensures
        r@ == v@,
{
    let mut out: Vec<(String, String)> = Vec::new();
    let mut i: usize = 0;
    while i < v.len()
        invariant
            i <= v@.len(),
            out@ == v@.take(i as int),
        decreases v@.len() - i,
    {
        out.push((v[i].0.clone(), v[i].1.clone()));
        assert(v@.take(i as int + 1) =~= v@.take(i as int).push(v@[i as int]));
        i = i + 1;
    }
    assert(v@.take(i as int) =~= v@);
    out
}

fn copy_opt(o: &Option<String>) -> (r: Option<String>)
    ensures
        r == *o,
{
    match o {
        Some(s) => Some(s.clone()),
        None => None,
    }
}

fn copy_source(s: &MemorySource) -> (r: MemorySource)
    ensures
        r == *s,
{
    MemorySource {
        session_id: copy_opt(&s.session_id),
        user_id: copy_opt(&s.user_id),
        channel_id: copy_opt(&s.channel_id),
        source_type: s.source_type,
    }
}

impl LayeredMemory {
    /// A memory of `content` from `source` under the identifier `id`, in
    /// working memory at `now_millis`: of middling importance, used once,
    /// expiring as working memory keeps it.
    pub fn new_at(id: uuid::Uuid, content: &str, source: MemorySource, now_millis: i64) -> (r: Self)
        ensures
            r.id == id,
            r.layer == MemoryLayer::Working,
            r.content@ == content@,
            r.summary is None,
            r.embedding_bits is None,
            r.importance_permille == 500,
            r.access_count == 1,
            r.last_accessed_millis == now_millis,
            r.created_at_millis == now_millis,
            r.expires_at_millis == expiry(MemoryLayer::Working, now_millis),
            r.related@.len() == 0,
            r.tags@.len() == 0,
            r.source == source,
            r.metadata@.len() == 0,
    {
        LayeredMemory {
            id,
            layer: MemoryLayer::Working,
            content: to_owned_string(content),
            summary: None,
            embedding_bits: None,
            importance_permille: 500,
            access_count: 1,
            last_accessed_millis: now_millis,
            created_at_millis: now_millis,
            expires_at_millis: expiry_exec(MemoryLayer::Working, now_millis),
            related: Vec::new(),
            tags: Vec::new(),
            source,
            metadata: Vec::new(),
        }
    }

    /// `new_at` under a fresh random identifier, now.
    pub fn new(content: &str, source: MemorySource) -> (r: Self)
        ensures
            r.layer == MemoryLayer::Working,
            r.content@ == content@,
            r.importance_permille == 500,
            r.access_count == 1,
            r.source == source,
    {
        LayeredMemory::new_at(new_uuid(), content, source, utc_now_millis())
    }

    /// The memory with importance `importance_permille`, at most 1000.
    pub fn with_importance(self, importance_permille: u32) -> (r: Self)
        ensures
            r == (LayeredMemory {
                importance_permille: if importance_permille > 1000 { 1000 } else { importance_permille },
                ..self
            }),
    {
        let mut m = self;
        m.importance_permille = if importance_permille > 1000 { 1000 } else { importance_permille };
        m
    }

    /// The memory with `embedding_bits` as its embedding.
    pub fn with_embedding(self, embedding_bits: Vec<u32>) -> (r: Self)
        ensures
            r == (LayeredMemory { embedding_bits: Some(embedding_bits), ..self }),
    {
        let mut m = self;
        m.embedding_bits = Some(embedding_bits);
        m
    }

    /// The memory with `tags` as its tags.
    pub fn with_tags(self, tags: Vec<String>) -> (r: Self)
        ensures
            r == (LayeredMemory { tags, ..self }),
    {
        let mut m = self;
        m.tags = tags;
        m
    }

    /// Count a use at `now_millis`.
    pub fn record_access_at(&mut self, now_millis: i64)
        ensures
            *final(self) == (LayeredMemory {
                access_count: ((old(self).access_count + 1) % 0x1_0000_0000_0000_0000) as u64,
                last_accessed_millis: now_millis,
                ..*old(self)
            }),
    {
        self.access_count = self.access_count.wrapping_add(1);
        self.last_accessed_millis = now_millis;
    }

    /// Count a use now.
    pub fn record_access(&mut self)
        ensures
            final(self).access_count == (old(self).access_count + 1) % 0x1_0000_0000_0000_0000,
            final(self).id == old(self).id,
            final(self).layer == old(self).layer,
            final(self).importance_permille == old(self).importance_permille,
    {
        self.record_access_at(utc_now_millis());
    }

    /// Whether the memory is due for promotion.
    pub fn should_promote(&self) -> (r: bool)
        ensures
            r == due_for_promotion(*self),
    {
        match self.layer {
            MemoryLayer::Working => self.importance_permille > 700 || self.access_count > 3,
            MemoryLayer::ShortTerm => self.importance_permille > 800 || self.access_count > 10,
            _ => false,
        }
    }

    /// Whether the memory has expired by `now_millis`.
    pub fn is_expired_at(&self, now_millis: i64) -> (r: bool)
        ensures
            r == expired_at(*self, now_millis),
    {
        match self.expires_at_millis {
            Some(e) => now_millis > e,
            None => false,
        }
    }

    /// Whether the memory has expired by now.
    pub fn is_expired(&self) -> (r: bool)
        ensures
            self.expires_at_millis is None ==> !r,
    {
        self.is_expired_at(utc_now_millis())
    }

    /// Promote the memory at `now_millis`.
    pub fn promote_at(&mut self, now_millis: i64)
        ensures
            *final(self) == promoted_at(*old(self), now_millis),
    {
        self.layer = self.layer.promoted();
        self.expires_at_millis = expiry_exec(self.layer, now_millis);
    }

    /// Promote the memory now.
    pub fn promote(&mut self)
        ensures
            final(self).layer == next_layer(old(self).layer),
            final(self).id == old(self).id,
            final(self).importance_permille == old(self).importance_permille,
    {
        self.promote_at(utc_now_millis());
    }

    /// A copy of the memory.
    pub fn duplicate(&self) -> (r: Self)
        ensures
            same_memory(r, *self),
    {
        LayeredMemory {
            id: self.id,
            layer: self.layer,
            content: self.content.clone(),
            summary: copy_opt(&self.summary),
            embedding_bits: match &self.embedding_bits {
                Some(v) => Some(copy_u32s(v)),
                None => None,
            },
            importance_permille: self.importance_permille,
            access_count: self.access_count,
            last_accessed_millis: self.last_accessed_millis,
            created_at_millis: self.created_at_millis,
            expires_at_millis: self.expires_at_millis,
            related: copy_ids(&self.related),
            tags: copy_strings(&self.tags),
            source: copy_source(&self.source),
            metadata: copy_pairs(&self.metadata),
        }
    }
}

/// How the layers are kept.
#[derive(Debug, Clone, Copy, PartialEq, Eq, Structural)]
pub struct HierarchicalMemoryConfig {
    pub working_memory_limit: usize,
    pub short_term_limit: usize,
    /// In thousandths.
    pub promotion_threshold_permille: u32,
    pub auto_consolidate: bool,
    pub consolidation_interval_secs: u64,
    pub summarize_on_promotion: bool,
}

impl Default for HierarchicalMemoryConfig {
    fn default() -> (r: Self)
        ensures
            r == (HierarchicalMemoryConfig {
                working_memory_limit: 20,
                short_term_limit: 100,
                promotion_threshold_permille: 700,
                auto_consolidate: true,
                consolidation_interval_secs: 300,
                summarize_on_promotion: true,
            }),
    {
        HierarchicalMemoryConfig {
            working_memory_limit: 20,
            short_term_limit: 100,
            promotion_threshold_permille: 700,
            auto_consolidate: true,
            consolidation_interval_secs: 300,
            summarize_on_promotion: true,
        }
    }
}

/// How many memories each layer holds.
#[derive(Debug, Clone, Copy, PartialEq, Eq, Structural)]
pub struct MemoryStats {
    pub working_count: usize,
    pub short_term_count: usize,
    pub long_term_episodic_count: usize,
    pub long_term_semantic_count: usize,
    pub procedural_count: usize,
}

impl MemoryStats {
    /// The memories in all layers, where that fits in a `usize`.
    pub fn total(&self) -> (r: usize)
        requires
            self.working_count + self.short_term_count + self.long_term_episodic_count + self.long_term_semantic_count
                + self.procedural_count <= usize::MAX,
        ensures
            r == self.working_count + self.short_term_count + self.long_term_episodic_count + self.long_term_semantic_count
                + self.procedural_count,
    {
        self.working_count + self.short_term_count + self.long_term_episodic_count + self.long_term_semantic_count
            + self.procedural_count
    }
}

/// The position where a memory of rank `k` goes among `s`, ordered by rank
/// from highest: after every one of at least that rank.
pub open spec fn rank_position(s: Seq<(u64, LayeredMemory)>, k: u64) -> int
    decreases s.len(),
{
    if s.len() == 0 {
        0
    } else if s.last().0 >= k {
        s.len() as int
    } else {
        rank_position(s.drop_last(), k)
    }
}

/// `ps` ordered by rank from highest, equals keeping their order.
pub open spec fn ranked(ps: Seq<(u64, LayeredMemory)>) -> Seq<(u64, LayeredMemory)>
    decreases ps.len(),
{
    if ps.len() == 0 {
        ps
    } else {
        let sorted = ranked(ps.drop_last());
        sorted.insert(rank_position(sorted, ps.last().0), ps.last())
    }
}

/// The memories `ms` with the ranks `keys`, one by one.
pub open spec fn paired(keys: Seq<u64>, ms: Seq<LayeredMemory>) -> Seq<(u64, LayeredMemory)> {
    Seq::new(ms.len(), |i: int| (keys[i], ms[i]))
}

/// `keys` are ranks that `rank` gives the memories `ms`, one by one.
pub open spec fn ranks_of<R: Fn(&LayeredMemory) -> u64>(rank: R, ms: Seq<LayeredMemory>, keys: Seq<u64>) -> bool {
    &&& keys.len() == ms.len()
    &&& forall|i: int| 0 <= i < ms.len() ==> call_ensures(rank, (&ms[i],), #[trigger] keys[i])
}

/// The memories among `popped`, in that order, that are promoted when they
/// leave short-term memory at `now`, promoted.
pub open spec fn promotions(popped: Seq<LayeredMemory>, now: i64) -> Seq<LayeredMemory>
    decreases popped.len(),
{
    if popped.len() == 0 {
        Seq::empty()
    } else if due_for_promotion(popped.last()) {
        promotions(popped.drop_last(), now).push(promoted_at(popped.last(), now))
    } else {
        promotions(popped.drop_last(), now)
    }
}

/// The memories of `r` from position `keep` on, last first.
pub open spec fn tail_last_first(r: Seq<(u64, LayeredMemory)>, keep: int) -> Seq<LayeredMemory> {
    Seq::new((r.len() - keep) as nat, |j: int| r[r.len() - 1 - j].1)
}

/// Every memory of `ms` is in `l`.
pub open spec fn all_in(ms: Seq<LayeredMemory>, l: MemoryLayer) -> bool {
    forall|i: int| 0 <= i < ms.len() ==> (#[trigger] ms[i]).layer == l
}

/// The layers' contents.
pub struct LayersView {
    pub working: Seq<LayeredMemory>,
    pub short_term: Seq<LayeredMemory>,
    pub long_term_episodic: Seq<LayeredMemory>,
    pub long_term_semantic: Seq<LayeredMemory>,
    pub procedural: Seq<LayeredMemory>,
}

/// `after` is `before` once `memory` is stored in its layer, short-term
/// memory having room.
pub open spec fn placed(after: LayersView, before: LayersView, memory: LayeredMemory) -> bool {
    match memory.layer {
        MemoryLayer::Working => after == LayersView { working: before.working.push(memory), ..before },
        MemoryLayer::ShortTerm => after == LayersView { short_term: before.short_term.push(memory), ..before },
        MemoryLayer::LongTermEpisodic => after == LayersView {
            long_term_episodic: before.long_term_episodic.push(memory),
            ..before
        },
        MemoryLayer::LongTermSemantic => after == LayersView {
            long_term_semantic: before.long_term_semantic.push(memory),
            ..before
        },
        MemoryLayer::Procedural => after == LayersView { procedural: before.procedural.push(memory), ..before },
    }
}

/// `after` is `before` once `memory` joins full short-term memory at
/// `now`, its memories ranked `keys`: the `limit - 1` highest ranked stay,
/// highest first, the others leave it lowest first, and those due are
/// promoted to episodic memory.
pub open spec fn overflowed(after: LayersView, before: LayersView, memory: LayeredMemory, limit: usize, keys: Seq<u64>, now: i64) -> bool {
    let r = ranked(paired(keys, before.short_term));
    after == LayersView {
        short_term: r.take(limit - 1).map_values(|p: (u64, LayeredMemory)| p.1).push(memory),
        long_term_episodic: before.long_term_episodic + promotions(tail_last_first(r, limit - 1), now),
        ..before
    }
}

/// `after` is `before` once `memory` is stored in its layer at `now`.
pub open spec fn stored<R: Fn(&LayeredMemory) -> u64>(after: LayersView, before: LayersView, memory: LayeredMemory, limit: usize, rank: R, now: i64) -> bool {
    if memory.layer == MemoryLayer::ShortTerm && before.short_term.len() >= limit {
        exists|keys: Seq<u64>| ranks_of(rank, before.short_term, keys) && overflowed(after, before, memory, limit, keys, now)
    } else {
        placed(after, before, memory)
    }
}

proof fn lemma_ranked_len(ps: Seq<(u64, LayeredMemory)>)
    ensures
        ranked(ps).len() == ps.len(),
        forall|x: (u64, LayeredMemory)| ranked(ps).contains(x) <==> ps.contains(x),
    decreases ps.len(),
{
    if ps.len() > 0 {
        let t = ps.drop_last();
        lemma_ranked_len(t);
        lemma_rank_position(ranked(t), ps.last().0);
        let sorted = ranked(t);
        let p = rank_position(sorted, ps.last().0);
        let r = sorted.insert(p, ps.last());
        assert forall|x: (u64, LayeredMemory)| r.contains(x) <==> ps.contains(x) by {
            if r.contains(x) {
                let i = choose|i: int| 0 <= i < r.len() && r[i] == x;
                if i < p {
                    assert(sorted[i] == x);
                    assert(sorted.contains(x));
                    assert(t.contains(x));
                    let j = choose|j: int| 0 <= j < t.len() && t[j] == x;
                    assert(t[j] == ps[j]);
                } else if i > p {
                    assert(sorted[i - 1] == x);
                    assert(sorted.contains(x));
                    assert(t.contains(x));
                    let j = choose|j: int| 0 <= j < t.len() && t[j] == x;
                    assert(t[j] == ps[j]);
                } else {
                    assert(ps[ps.len() - 1] == x);
                }
            }
            if ps.contains(x) {
                let j = choose|j: int| 0 <= j < ps.len() && ps[j] == x;
                if j < ps.len() - 1 {
                    assert(t[j] == x);
                    assert(t.contains(x));
                    let i = choose|i: int| 0 <= i < sorted.len() && sorted[i] == x;
                    if i < p {
                        assert(r[i] == x);
                    } else {
                        assert(r[i + 1] == x);
                    }
                } else {
                    assert(r[p] == x);
                }
            }
        }
    }
}

proof fn lemma_rank_position(s: Seq<(u64, LayeredMemory)>, k: u64)
    ensures
        0 <= rank_position(s, k) <= s.len(),
    decreases s.len(),
{
    if s.len() > 0 {
        lemma_rank_position(s.drop_last(), k);
    }
}

fn rank_insert_position(s: &Vec<(u64, LayeredMemory)>, k: u64) -> (r: usize)
    ensures
        r == rank_position(s@, k),
        r <= s@.len(),
{
    let mut i: usize = s.len();
    assert(s@.take(i as int) =~= s@);
    while i > 0 && s[i - 1].0 < k
        invariant
            i <= s@.len(),
            rank_position(s@, k) == rank_position(s@.take(i as int), k),
        decreases i,
    {
        assert(s@.take(i as int).drop_last() =~= s@.take(i - 1));
        i = i - 1;
    }
    if i > 0 {
        assert(s@.take(i as int).last() == s@[i - 1]);
    }
    i
}

/// The layers besides working memory.
pub open spec fn others(v: LayersView) -> LayersView {
    LayersView { working: Seq::empty(), ..v }
}

/// `next` is `cur` once `item`, should it be due for promotion, is promoted
/// at `now` and stored in its layer; otherwise it is dropped.
pub open spec fn settles<R: Fn(&LayeredMemory) -> u64>(next: LayersView, cur: LayersView, item: LayeredMemory, limit: usize, rank: R, now: i64) -> bool {
    if due_for_promotion(item) {
        stored(next, cur, promoted_at(item, now), limit, rank, now)
    } else {
        next == cur
    }
}

/// `chain` runs from `before` through the layers as each of `items` in turn
/// settles.
pub open spec fn settled_through<R: Fn(&LayeredMemory) -> u64>(chain: Seq<LayersView>, before: LayersView, items: Seq<LayeredMemory>, limit: usize, rank: R, now: i64) -> bool {
    &&& chain.len() == items.len() + 1
    &&& chain[0] == before
    &&& forall|i: int| 0 <= i < items.len() ==> settles(chain[i + 1], chain[i], #[trigger] items[i], limit, rank, now)
}

/// `after` is `before` once the memories `items` due for promotion are, in
/// turn, promoted at `now` and stored in their layers; the others are
/// dropped.
pub open spec fn promoted_into<R: Fn(&LayeredMemory) -> u64>(after: LayersView, before: LayersView, items: Seq<LayeredMemory>, limit: usize, rank: R, now: i64) -> bool {
    exists|chain: Seq<LayersView>| #[trigger] settled_through(chain, before, items, limit, rank, now) && chain.last() == after
}

proof fn lemma_promoted_into_none<R: Fn(&LayeredMemory) -> u64>(before: LayersView, limit: usize, rank: R, now: i64)
    ensures
        promoted_into(before, before, Seq::empty(), limit, rank, now),
{
    let chain = seq![before];
    assert(settled_through(chain, before, Seq::empty(), limit, rank, now));
}

proof fn lemma_promoted_into_step<R: Fn(&LayeredMemory) -> u64>(after: LayersView, mid: LayersView, before: LayersView, items: Seq<LayeredMemory>, limit: usize, rank: R, now: i64)
    requires
        items.len() > 0,
        promoted_into(mid, before, items.drop_last(), limit, rank, now),
        settles(after, mid, items.last(), limit, rank, now),
    ensures
        promoted_into(after, before, items, limit, rank, now),
{
    let t = items.drop_last();
    let c = choose|c: Seq<LayersView>| #[trigger] settled_through(c, before, t, limit, rank, now) && c.last() == mid;
    let c2 = c.push(after);
    assert forall|i: int| 0 <= i < items.len() implies settles(c2[i + 1], c2[i], #[trigger] items[i], limit, rank, now) by {
        if i < items.len() - 1 {
            assert(items[i] == t[i]);
            assert(c2[i + 1] == c[i + 1]);
            assert(c2[i] == c[i]);
        } else {
            assert(c2[i] == c.last());
        }
    }
    assert(settled_through(c2, before, items, limit, rank, now));
    assert(c2.last() == after);
}

/// How many memories leave working memory of `n` memories, kept to `limit`,
/// to make room for one more.
pub open spec fn evicted_count(n: int, limit: int) -> int {
    if n >= limit { n - limit + 1 } else { 0 }
}

proof fn lemma_stored_others<R: Fn(&LayeredMemory) -> u64>(after: LayersView, before: LayersView, memory: LayeredMemory, limit: usize, rank: R, now: i64)
    requires
        stored(after, before, memory, limit, rank, now),
        memory.layer != MemoryLayer::Working,
    ensures
        stored(others(after), others(before), memory, limit, rank, now),
        after.working == before.working,
{
    if memory.layer == MemoryLayer::ShortTerm && before.short_term.len() >= limit {
        let keys = choose|keys: Seq<u64>| ranks_of(rank, before.short_term, keys) && overflowed(after, before, memory, limit, keys, now);
        assert(overflowed(others(after), others(before), memory, limit, keys, now));
    } else {
        assert(placed(others(after), others(before), memory));
    }
}

/// The memory once used at `now`.
pub open spec fn accessed(m: LayeredMemory, now: i64) -> LayeredMemory {
    LayeredMemory {
        access_count: ((m.access_count + 1) % 0x1_0000_0000_0000_0000) as u64,
        last_accessed_millis: now,
        ..m
    }
}

/// The position of the first memory with identifier `id`.
pub open spec fn first_with_id(ms: Seq<LayeredMemory>, id: uuid::Uuid) -> Option<int>
    decreases ms.len(),
{
    if ms.len() == 0 {
        None
    } else {
        match first_with_id(ms.drop_last(), id) {
            Some(i) => Some(i),
            None => if ms.last().id == id { Some(ms.len() - 1) } else { None },
        }
    }
}

proof fn lemma_first_with_id(ms: Seq<LayeredMemory>, id: uuid::Uuid)
    ensures
        match first_with_id(ms, id) {
            Some(i) => 0 <= i < ms.len() && ms[i].id == id && forall|j: int| 0 <= j < i ==> (#[trigger] ms[j]).id != id,
            None => forall|j: int| 0 <= j < ms.len() ==> (#[trigger] ms[j]).id != id,
        },
    decreases ms.len(),
{
    if ms.len() > 0 {
        let t = ms.drop_last();
        lemma_first_with_id(t, id);
        assert forall|j: int| 0 <= j < t.len() implies #[trigger] t[j] == ms[j] by {}
        match first_with_id(t, id) {
            Some(i) => {
                assert(t[i] == ms[i]);
                assert forall|j: int| 0 <= j < i implies (#[trigger] ms[j]).id != id by {
                    assert(t[j] == ms[j]);
                }
            },
            None => {
                assert forall|j: int| 0 <= j < ms.len() - 1 implies (#[trigger] ms[j]).id != id by {
                    assert(t[j] == ms[j]);
                }
            },
        }
    }
}

fn index_with_id(ms: &Vec<LayeredMemory>, id: &uuid::Uuid) -> (r: Option<usize>)
    ensures
        match r {
            Some(i) => i < ms@.len() && first_with_id(ms@, *id) == Some(i as int),
            None => first_with_id(ms@, *id) is None,
        },
{
    proof {
        lemma_first_with_id(ms@, *id);
    }
    let mut i: usize = 0;
    while i < ms.len()
        invariant
            i <= ms@.len(),
            forall|j: int| 0 <= j < i ==> (#[trigger] ms@[j]).id != *id,
            match first_with_id(ms@, *id) {
                Some(k) => 0 <= k < ms@.len() && ms@[k].id == *id && forall|j: int| 0 <= j < k ==> (#[trigger] ms@[j]).id != *id,
                None => forall|j: int| 0 <= j < ms@.len() ==> (#[trigger] ms@[j]).id != *id,
            },
        decreases ms@.len() - i,
    {
        if uuid_eq(&ms[i].id, id) {
            return Some(i);
        }
        i = i + 1;
    }
    None
}

/// The memories of `ms` that have not expired by `now`, in order.
pub open spec fn unexpired(ms: Seq<LayeredMemory>, now: i64) -> Seq<LayeredMemory>
    decreases ms.len(),
{
    if ms.len() == 0 {
        ms
    } else if !expired_at(ms.last(), now) {
        unexpired(ms.drop_last(), now).push(ms.last())
    } else {
        unexpired(ms.drop_last(), now)
    }
}

/// The memories of `ms` that have expired by `now`, in order.
pub open spec fn expired_ones(ms: Seq<LayeredMemory>, now: i64) -> Seq<LayeredMemory>
    decreases ms.len(),
{
    if ms.len() == 0 {
        ms
    } else if expired_at(ms.last(), now) {
        expired_ones(ms.drop_last(), now).push(ms.last())
    } else {
        expired_ones(ms.drop_last(), now)
    }
}

/// A short-term memory stays at consolidation unless it expired and is not
/// due for promotion.
pub open spec fn stays_short(m: LayeredMemory, now: i64) -> bool {
    !expired_at(m, now) || due_for_promotion(m)
}

/// The short-term memories that stay at consolidation, in order.
pub open spec fn staying(ms: Seq<LayeredMemory>, now: i64) -> Seq<LayeredMemory>
    decreases ms.len(),
{
    if ms.len() == 0 {
        ms
    } else if stays_short(ms.last(), now) {
        staying(ms.drop_last(), now).push(ms.last())
    } else {
        staying(ms.drop_last(), now)
    }
}

/// A short-term memory is copied on to episodic memory at consolidation
/// when it expired or is due, and is more important than `threshold`.
pub open spec fn moves_on(m: LayeredMemory, now: i64, threshold: u32) -> bool {
    (expired_at(m, now) || due_for_promotion(m)) && m.importance_permille > threshold
}

/// The short-term memories copied on at consolidation, in order.
pub open spec fn moving(ms: Seq<LayeredMemory>, now: i64, threshold: u32) -> Seq<LayeredMemory>
    decreases ms.len(),
{
    if ms.len() == 0 {
        ms
    } else if moves_on(ms.last(), now, threshold) {
        moving(ms.drop_last(), now, threshold).push(ms.last())
    } else {
        moving(ms.drop_last(), now, threshold)
    }
}

/// `copies` are the memories `ms` promoted at `now`, one by one.
pub open spec fn promoted_copies(copies: Seq<LayeredMemory>, ms: Seq<LayeredMemory>, now: i64) -> bool {
    &&& copies.len() == ms.len()
    &&& forall|i: int| 0 <= i < ms.len() ==> same_memory(#[trigger] copies[i], promoted_at(ms[i], now))
}

/// Working, short-term and long-term memory, and what was learned.
pub struct HierarchicalMemory {
    working: Vec<LayeredMemory>,
    short_term: Vec<LayeredMemory>,
    long_term_episodic: Vec<LayeredMemory>,
    long_term_semantic: Vec<LayeredMemory>,
    procedural: Vec<LayeredMemory>,
    config: HierarchicalMemoryConfig,
}

impl HierarchicalMemory {
    /// The layers' contents.
    pub closed spec fn layers(&self) -> LayersView {
        LayersView {
            working: self.working@,
            short_term: self.short_term@,
            long_term_episodic: self.long_term_episodic@,
            long_term_semantic: self.long_term_semantic@,
            procedural: self.procedural@,
        }
    }

    /// The configuration.
    pub closed spec fn config_view(&self) -> HierarchicalMemoryConfig {
        self.config
    }

    /// Each layer but working memory holds only memories of that layer.
    pub open spec fn wf(&self) -> bool {
        &&& all_in(self.layers().short_term, MemoryLayer::ShortTerm)
        &&& all_in(self.layers().long_term_episodic, MemoryLayer::LongTermEpisodic)
        &&& all_in(self.layers().long_term_semantic, MemoryLayer::LongTermSemantic)
        &&& all_in(self.layers().procedural, MemoryLayer::Procedural)
    }

    /// Empty layers kept by `config`.
    pub fn new(config: HierarchicalMemoryConfig) -> (r: Self)
        ensures
            r.wf(),
            r.config_view() == config,
            r.layers().working.len() == 0,
            r.layers().short_term.len() == 0,
            r.layers().long_term_episodic.len() == 0,
            r.layers().long_term_semantic.len() == 0,
            r.layers().procedural.len() == 0,
    {
        HierarchicalMemory {
            working: Vec::new(),
            short_term: Vec::new(),
            long_term_episodic: Vec::new(),
            long_term_semantic: Vec::new(),
            procedural: Vec::new(),
            config,
        }
    }

    /// Store `memory` in its layer at `now_millis`; where short-term memory
    /// is full, its memories are ranked by `rank`, the lowest ranked leave
    /// it, and those due are promoted to episodic memory.
    fn store_in_layer<R: Fn(&LayeredMemory) -> u64>(&mut self, memory: LayeredMemory, rank: &R, now_millis: i64)
        requires
            old(self).wf(),
            old(self).config_view().short_term_limit > 0,
            memory.layer == MemoryLayer::ShortTerm ==> all_in(seq![memory], MemoryLayer::ShortTerm),
            forall|m: &LayeredMemory| call_requires(*rank, (m,)),
        ensures
            final(self).wf(),
            final(self).config_view() == old(self).config_view(),
            stored(final(self).layers(), old(self).layers(), memory, old(self).config_view().short_term_limit, *rank, now_millis),
    {
        match memory.layer {
            MemoryLayer::Working => {
                self.working.push(memory);
            },
            MemoryLayer::ShortTerm => {
                if self.short_term.len() >= self.config.short_term_limit {
                    self.overflow(memory, rank, now_millis);
                } else {
                    self.short_term.push(memory);
                }
            },
            MemoryLayer::LongTermEpisodic => {
                self.long_term_episodic.push(memory);
            },
            MemoryLayer::LongTermSemantic => {
                self.long_term_semantic.push(memory);
            },
            MemoryLayer::Procedural => {
                self.procedural.push(memory);
            },
        }
        proof {
            if !(memory.layer == MemoryLayer::ShortTerm && old(self).short_term@.len() >= old(self).config.short_term_limit) {
                assert(placed(self.layers(), old(self).layers(), memory));
            }
        }
    }

    fn overflow<R: Fn(&LayeredMemory) -> u64>(&mut self, memory: LayeredMemory, rank: &R, now_millis: i64)
        requires
            old(self).wf(),
            old(self).config_view().short_term_limit > 0,
            old(self).layers().short_term.len() >= old(self).config_view().short_term_limit,
            memory.layer == MemoryLayer::ShortTerm,
            forall|m: &LayeredMemory| call_requires(*rank, (m,)),
        ensures
            final(self).wf(),
            final(self).config_view() == old(self).config_view(),
            exists|keys: Seq<u64>| ranks_of(*rank, old(self).layers().short_term, keys)
                && overflowed(final(self).layers(), old(self).layers(), memory, old(self).config_view().short_term_limit, keys, now_millis),
    {
        let limit = self.config.short_term_limit;
        let mut taken: Vec<LayeredMemory> = Vec::new();
        std::mem::swap(&mut taken, &mut self.short_term);
        let ghost old_st = taken@;
        let ghost mut keys: Seq<u64> = Seq::empty();
        let mut ranked_items: Vec<(u64, LayeredMemory)> = Vec::new();
        let mut i: usize = 0;
        let n = taken.len();
        while taken.len() > 0
            invariant
                n == old_st.len(),
                i <= n,
                taken@ == old_st.skip(i as int),
                keys.len() == i,
                forall|j: int| 0 <= j < i ==> call_ensures(*rank, (&old_st[j],), #[trigger] keys[j]),
                ranked_items@ == ranked(paired(keys, old_st.take(i as int))),
                forall|m: &LayeredMemory| call_requires(*rank, (m,)),
            decreases taken@.len(),
        {
            let m = taken.remove(0);
            assert(m == old_st[i as int]);
            let k = rank(&m);
            let pos = rank_insert_position(&ranked_items, k);
            proof {
                let t = paired(keys.push(k), old_st.take(i as int + 1));
                assert(t.drop_last() =~= paired(keys, old_st.take(i as int)));
                assert(t.last() == (k, m));
                assert(taken@ =~= old_st.skip(i as int + 1));
            }
            ranked_items.insert(pos, (k, m));
            proof {
                keys = keys.push(k);
            }
            i = i + 1;
        }
        assert(old_st.take(n as int) =~= old_st);
        proof {
            lemma_ranked_len(paired(keys, old_st));
        }
        let ghost r = ranked_items@;
        let mut promoted: Vec<LayeredMemory> = Vec::new();
        while ranked_items.len() >= limit
            invariant
                limit > 0,
                ranked_items@ == r.take(ranked_items@.len() as int),
                ranked_items@.len() <= r.len(),
                ranked_items@.len() >= limit - 1,
                promoted@ == promotions(tail_last_first(r, ranked_items@.len() as int), now_millis),
            decreases ranked_items@.len(),
        {
            let ghost len = ranked_items@.len();
            let (_, mut item) = ranked_items.pop().unwrap();
            proof {
                assert(tail_last_first(r, len - 1).drop_last() =~= tail_last_first(r, len as int));
                assert(tail_last_first(r, len - 1).last() == r[len - 1].1);
                assert(ranked_items@ =~= r.take(len - 1));
            }
            if item.should_promote() {
                item.promote_at(now_millis);
                promoted.push(item);
            }
        }
        let ghost survivors = ranked_items@;
        let mut kept: Vec<LayeredMemory> = Vec::new();
        let mut j: usize = 0;
        let m_len = ranked_items.len();
        while ranked_items.len() > 0
            invariant
                j <= m_len,
                m_len == survivors.len(),
                ranked_items@ == survivors.skip(j as int),
                kept@ == survivors.take(j as int).map_values(|p: (u64, LayeredMemory)| p.1),
            decreases ranked_items@.len(),
        {
            let (_, item) = ranked_items.remove(0);
            proof {
                assert(survivors.take(j as int + 1).map_values(|p: (u64, LayeredMemory)| p.1)
                    =~= survivors.take(j as int).map_values(|p: (u64, LayeredMemory)| p.1).push(survivors[j as int].1));
                assert(ranked_items@ =~= survivors.skip(j as int + 1));
            }
            kept.push(item);
            j = j + 1;
        }
        assert(survivors.take(m_len as int) =~= survivors);
        let ghost lte_before = self.long_term_episodic@;
        let ghost prom = promoted@;
        let mut q: usize = 0;
        let p_len = promoted.len();
        while promoted.len() > 0
            invariant
                q <= p_len,
                p_len == prom.len(),
                promoted@ == prom.skip(q as int),
                self.long_term_episodic@ == lte_before + prom.take(q as int),
                self.working@ == old(self).working@,
                self.long_term_semantic@ == old(self).long_term_semantic@,
                self.procedural@ == old(self).procedural@,
                self.config == old(self).config,
            decreases promoted@.len(),
        {
            let item = promoted.remove(0);
            proof {
                assert(prom.take(q as int + 1) =~= prom.take(q as int).push(prom[q as int]));
                assert(promoted@ =~= prom.skip(q as int + 1));
            }
            self.long_term_episodic.push(item);
            q = q + 1;
        }
        assert(prom.take(p_len as int) =~= prom);
        self.short_term = kept;
        self.short_term.push(memory);
        proof {
            assert(survivors =~= r.take(limit - 1));
            assert forall|t: int| 0 <= t < r.len() implies (#[trigger] r[t]).1.layer == MemoryLayer::ShortTerm by {
                assert(r.contains(r[t]));
                assert(paired(keys, old_st).contains(r[t]));
                let u = choose|u: int| 0 <= u < paired(keys, old_st).len() && paired(keys, old_st)[u] == r[t];
                assert(old_st[u].layer == MemoryLayer::ShortTerm);
            }
            assert(all_in(tail_last_first(r, limit - 1), MemoryLayer::ShortTerm)) by {
                let tl = tail_last_first(r, limit - 1);
                assert forall|t: int| 0 <= t < tl.len() implies (#[trigger] tl[t]).layer == MemoryLayer::ShortTerm by {
                    assert(tl[t] == r[r.len() - 1 - t].1);
                }
            }
            lemma_promotions_layer(tail_last_first(r, limit - 1), now_millis);
            assert(all_in(self.short_term@, MemoryLayer::ShortTerm)) by {
                assert forall|t: int| 0 <= t < self.short_term@.len() implies (#[trigger] self.short_term@[t]).layer == MemoryLayer::ShortTerm by {
                    if t < self.short_term@.len() - 1 {
                        assert(self.short_term@[t] == survivors[t].1);
                    }
                }
            }
            assert(all_in(self.long_term_episodic@, MemoryLayer::LongTermEpisodic)) by {
                assert forall|t: int| 0 <= t < self.long_term_episodic@.len() implies (#[trigger] self.long_term_episodic@[t]).layer == MemoryLayer::LongTermEpisodic by {
                    if t >= lte_before.len() {
                        assert(self.long_term_episodic@[t] == prom[t - lte_before.len()]);
                    }
                }
            }
            assert(ranks_of(*rank, old_st, keys));
            assert(overflowed(self.layers(), old(self).layers(), memory, limit, keys, now_millis));
        }
    }
}

impl HierarchicalMemory {
    /// Add `memory` to working memory at `now_millis`. Where working memory
    /// is full, its oldest memories leave it first, and those due for
    /// promotion are promoted and stored in their layers, `rank` ordering
    /// short-term memory should it overflow.
    pub fn remember_at<R: Fn(&LayeredMemory) -> u64>(&mut self, memory: LayeredMemory, rank: &R, now_millis: i64)
        requires
            old(self).wf(),
            old(self).config_view().working_memory_limit > 0,
            old(self).config_view().short_term_limit > 0,
            forall|m: &LayeredMemory| call_requires(*rank, (m,)),
        ensures
            final(self).wf(),
            final(self).config_view() == old(self).config_view(),
            final(self).layers().working == old(self).layers().working.skip(
                evicted_count(old(self).layers().working.len() as int, old(self).config_view().working_memory_limit as int),
            ).push(memory),
            promoted_into(
                others(final(self).layers()),
                others(old(self).layers()),
                old(self).layers().working.take(
                    evicted_count(old(self).layers().working.len() as int, old(self).config_view().working_memory_limit as int),
                ),
                old(self).config_view().short_term_limit,
                *rank,
                now_millis,
            ),
            final(self).layers().working.len() <= old(self).config_view().working_memory_limit,
            old(self).layers().short_term.len() <= old(self).config_view().short_term_limit
                ==> final(self).layers().short_term.len() <= old(self).config_view().short_term_limit,
    {
        let limit = self.config.working_memory_limit;
        let ghost w0 = self.working@;
        let ghost o0 = others(self.layers());
        let ghost cfg = self.config;
        let mut e: usize = 0;
        assert(w0.len() == self.working.len());
        assert(w0.take(0) =~= Seq::<LayeredMemory>::empty());
        assert(w0.skip(0) =~= w0);
        proof {
            lemma_promoted_into_none(o0, cfg.short_term_limit, *rank, now_millis);
        }
        while self.working.len() >= limit
            invariant
                self.wf(),
                self.config == cfg,
                limit == cfg.working_memory_limit,
                limit > 0,
                cfg.short_term_limit > 0,
                e <= w0.len(),
                w0.len() <= usize::MAX,
                self.working@ == w0.skip(e as int),
                w0.len() >= limit ==> e <= w0.len() - limit + 1,
                w0.len() < limit ==> e == 0,
                promoted_into(others(self.layers()), o0, w0.take(e as int), cfg.short_term_limit, *rank, now_millis),
                forall|m: &LayeredMemory| call_requires(*rank, (m,)),
            decreases self.working@.len(),
        {
            let ghost mid = others(self.layers());
            assert(e < w0.len());
            let evicted = self.working.remove(0);
            assert(evicted == w0[e as int]);
            assert(self.working@ =~= w0.skip(e as int + 1));
            assert(w0.take(e as int + 1).drop_last() =~= w0.take(e as int));
            assert(w0.take(e as int + 1).last() == evicted);
            assert(others(self.layers()) == mid);
            let ghost items = w0.take(e as int + 1);
            if evicted.should_promote() {
                let mut promoted = evicted;
                promoted.promote_at(now_millis);
                let ghost before = self.layers();
                self.store_in_layer(promoted, rank, now_millis);
                proof {
                    lemma_stored_others(self.layers(), before, promoted, cfg.short_term_limit, *rank, now_millis);
                    assert(others(before) == mid);
                }
            }
            proof {
                lemma_promoted_into_step(others(self.layers()), mid, o0, items, cfg.short_term_limit, *rank, now_millis);
            }
            e = e + 1;
        }
        self.working.push(memory);
        proof {
            if old(self).layers().short_term.len() <= cfg.short_term_limit {
                lemma_short_term_stays_bounded(others(self.layers()), o0, w0.take(e as int), cfg.short_term_limit, *rank, now_millis);
            }
        }
    }
}

/// `after` is `before` once consolidated at `now`: unexpired working
/// memories stay, expired ones due for promotion are promoted and stored
/// in their layers, `rank` ordering short-term memory should it overflow;
/// then short-term memories that expired or are due and are more important
/// than `threshold` are copied on, promoted, to episodic memory, those that
/// expired and are not due leave short-term memory, and at last expired
/// episodic memories are dropped.
pub open spec fn consolidated<R: Fn(&LayeredMemory) -> u64>(after: LayersView, before: LayersView, limit: usize, threshold: u32, rank: R, now: i64) -> bool {
    exists|mid: LayersView, copies: Seq<LayeredMemory>|
        #![trigger promoted_into(mid, others(before), expired_ones(before.working, now), limit, rank, now), promoted_copies(copies, moving(mid.short_term, now, threshold), now)]
        promoted_into(mid, others(before), expired_ones(before.working, now), limit, rank, now)
        && promoted_copies(copies, moving(mid.short_term, now, threshold), now)
        && after == (LayersView {
            working: unexpired(before.working, now),
            short_term: staying(mid.short_term, now),
            long_term_episodic: unexpired(mid.long_term_episodic + copies, now),
            long_term_semantic: mid.long_term_semantic,
            procedural: mid.procedural,
        })
}

impl HierarchicalMemory {
    fn settle_working<R: Fn(&LayeredMemory) -> u64>(&mut self, rank: &R, now_millis: i64)
        requires
            old(self).wf(),
            old(self).config_view().short_term_limit > 0,
            forall|m: &LayeredMemory| call_requires(*rank, (m,)),
        ensures
            final(self).wf(),
            final(self).config_view() == old(self).config_view(),
            final(self).layers().working == unexpired(old(self).layers().working, now_millis),
            promoted_into(
                others(final(self).layers()),
                others(old(self).layers()),
                expired_ones(old(self).layers().working, now_millis),
                old(self).config_view().short_term_limit,
                *rank,
                now_millis,
            ),
    {
        let ghost w0 = self.working@;
        let ghost o0 = others(self.layers());
        let ghost cfg = self.config;
        let mut taken: Vec<LayeredMemory> = Vec::new();
        std::mem::swap(&mut taken, &mut self.working);
        let mut kept: Vec<LayeredMemory> = Vec::new();
        let n = taken.len();
        let mut i: usize = 0;
        proof {
            lemma_promoted_into_none(o0, cfg.short_term_limit, *rank, now_millis);
            assert(w0.take(0) =~= Seq::<LayeredMemory>::empty());
            assert(w0.skip(0) =~= w0);
            assert(others(self.layers()) == o0);
        }
        while taken.len() > 0
            invariant
                self.wf(),
                self.config == cfg,
                cfg.short_term_limit > 0,
                n == w0.len(),
                i <= n,
                taken@ == w0.skip(i as int),
                self.working@.len() == 0,
                kept@ == unexpired(w0.take(i as int), now_millis),
                promoted_into(others(self.layers()), o0, expired_ones(w0.take(i as int), now_millis), cfg.short_term_limit, *rank, now_millis),
                forall|m: &LayeredMemory| call_requires(*rank, (m,)),
            decreases taken@.len(),
        {
            let item = taken.remove(0);
            let ghost t1 = w0.take(i as int + 1);
            proof {
                assert(item == w0[i as int]);
                assert(taken@ =~= w0.skip(i as int + 1));
                assert(t1.drop_last() =~= w0.take(i as int));
                assert(t1.last() == item);
            }
            if item.is_expired_at(now_millis) {
                let ghost mid = others(self.layers());
                if item.should_promote() {
                    let mut p = item;
                    p.promote_at(now_millis);
                    let ghost before = self.layers();
                    self.store_in_layer(p, rank, now_millis);
                    proof {
                        lemma_stored_others(self.layers(), before, p, cfg.short_term_limit, *rank, now_millis);
                        assert(others(before) == mid);
                    }
                }
                proof {
                    let ex = expired_ones(t1, now_millis);
                    assert(ex.drop_last() =~= expired_ones(w0.take(i as int), now_millis));
                    lemma_promoted_into_step(others(self.layers()), mid, o0, ex, cfg.short_term_limit, *rank, now_millis);
                }
            } else {
                kept.push(item);
            }
            i = i + 1;
        }
        proof {
            assert(w0.take(n as int) =~= w0);
        }
        self.working = kept;
        proof {
            assert(others(self.layers()) == others(self.layers()));
        }
    }

    fn settle_short_term(&mut self, now_millis: i64)
        requires
            old(self).wf(),
        ensures
            final(self).wf(),
            final(self).config_view() == old(self).config_view(),
            final(self).layers().working == old(self).layers().working,
            final(self).layers().long_term_semantic == old(self).layers().long_term_semantic,
            final(self).layers().procedural == old(self).layers().procedural,
            final(self).layers().short_term == staying(old(self).layers().short_term, now_millis),
            exists|copies: Seq<LayeredMemory>|
                promoted_copies(copies, moving(old(self).layers().short_term, now_millis, old(self).config_view().promotion_threshold_permille), now_millis)
                && final(self).layers().long_term_episodic == old(self).layers().long_term_episodic + copies,
    {
        let ghost st0 = self.short_term@;
        let ghost lte0 = self.long_term_episodic@;
        let threshold = self.config.promotion_threshold_permille;
        let mut taken: Vec<LayeredMemory> = Vec::new();
        std::mem::swap(&mut taken, &mut self.short_term);
        let mut kept: Vec<LayeredMemory> = Vec::new();
        let n = taken.len();
        let mut i: usize = 0;
        proof {
            assert(st0.take(0) =~= Seq::<LayeredMemory>::empty());
            assert(st0.skip(0) =~= st0);
            assert(self.long_term_episodic@.skip(lte0.len() as int) =~= Seq::<LayeredMemory>::empty());
            assert(self.long_term_episodic@.take(lte0.len() as int) =~= lte0);
        }
        while taken.len() > 0
            invariant
                self.wf(),
                self.config == old(self).config,
                threshold == self.config.promotion_threshold_permille,
                self.working@ == old(self).working@,
                self.long_term_semantic@ == old(self).long_term_semantic@,
                self.procedural@ == old(self).procedural@,
                self.short_term@.len() == 0,
                all_in(st0, MemoryLayer::ShortTerm),
                n == st0.len(),
                i <= n,
                taken@ == st0.skip(i as int),
                kept@ == staying(st0.take(i as int), now_millis),
                all_in(kept@, MemoryLayer::ShortTerm),
                self.long_term_episodic@.len() >= lte0.len(),
                self.long_term_episodic@.take(lte0.len() as int) == lte0,
                promoted_copies(self.long_term_episodic@.skip(lte0.len() as int), moving(st0.take(i as int), now_millis, threshold), now_millis),
            decreases taken@.len(),
        {
            let item = taken.remove(0);
            let ghost t1 = st0.take(i as int + 1);
            let ghost lte_before = self.long_term_episodic@;
            proof {
                assert(item == st0[i as int]);
                assert(item.layer == MemoryLayer::ShortTerm);
                assert(taken@ =~= st0.skip(i as int + 1));
                assert(t1.drop_last() =~= st0.take(i as int));
                assert(t1.last() == item);
            }
            let expired = item.is_expired_at(now_millis);
            let due = item.should_promote();
            if (expired || due) && item.importance_permille > threshold {
                let mut c = item.duplicate();
                c.promote_at(now_millis);
                self.long_term_episodic.push(c);
                proof {
                    let cs = self.long_term_episodic@.skip(lte0.len() as int);
                    let mv = moving(t1, now_millis, threshold);
                    assert(cs =~= lte_before.skip(lte0.len() as int).push(c));
                    assert(mv =~= moving(st0.take(i as int), now_millis, threshold).push(item));
                    assert(same_memory(c, promoted_at(item, now_millis)));
                    assert forall|k: int| 0 <= k < mv.len() implies same_memory(#[trigger] cs[k], promoted_at(mv[k], now_millis)) by {
                        if k < mv.len() - 1 {
                            assert(cs[k] == lte_before.skip(lte0.len() as int)[k]);
                            assert(mv[k] == moving(st0.take(i as int), now_millis, threshold)[k]);
                        }
                    }
                    assert(self.long_term_episodic@.take(lte0.len() as int) =~= lte0);
                    assert forall|k: int| 0 <= k < self.long_term_episodic@.len() implies (#[trigger] self.long_term_episodic@[k]).layer == MemoryLayer::LongTermEpisodic by {
                        if k < lte_before.len() {
                            assert(self.long_term_episodic@[k] == lte_before[k]);
                        }
                    }
                }
            } else {
                proof {
                    assert(moving(t1, now_millis, threshold) =~= moving(st0.take(i as int), now_millis, threshold));
                }
            }
            if !expired || due {
                kept.push(item);
                proof {
                    assert(staying(t1, now_millis) =~= staying(st0.take(i as int), now_millis).push(item));
                }
            }
            i = i + 1;
        }
        proof {
            assert(st0.take(n as int) =~= st0);
            let copies = self.long_term_episodic@.skip(lte0.len() as int);
            assert(self.long_term_episodic@ =~= lte0 + copies);
        }
        self.short_term = kept;
    }

    fn drop_expired_episodic(&mut self, now_millis: i64)
        requires
            old(self).wf(),
        ensures
            final(self).wf(),
            final(self).config_view() == old(self).config_view(),
            final(self).layers() == (LayersView {
                long_term_episodic: unexpired(old(self).layers().long_term_episodic, now_millis),
                ..old(self).layers()
            }),
    {
        let ghost e0 = self.long_term_episodic@;
        let mut taken: Vec<LayeredMemory> = Vec::new();
        std::mem::swap(&mut taken, &mut self.long_term_episodic);
        let mut kept: Vec<LayeredMemory> = Vec::new();
        let n = taken.len();
        let mut i: usize = 0;
        proof {
            assert(e0.take(0) =~= Seq::<LayeredMemory>::empty());
            assert(e0.skip(0) =~= e0);
        }
        while taken.len() > 0
            invariant
                all_in(e0, MemoryLayer::LongTermEpisodic),
                n == e0.len(),
                i <= n,
                taken@ == e0.skip(i as int),
                kept@ == unexpired(e0.take(i as int), now_millis),
                all_in(kept@, MemoryLayer::LongTermEpisodic),
            decreases taken@.len(),
        {
            let item = taken.remove(0);
            let ghost t1 = e0.take(i as int + 1);
            proof {
                assert(item == e0[i as int]);
                assert(taken@ =~= e0.skip(i as int + 1));
                assert(t1.drop_last() =~= e0.take(i as int));
                assert(t1.last() == item);
            }
            if !item.is_expired_at(now_millis) {
                kept.push(item);
            }
            i = i + 1;
        }
        proof {
            assert(e0.take(n as int) =~= e0);
        }
        self.long_term_episodic = kept;
    }

    /// Consolidate the layers at `now_millis`, `rank` ordering short-term
    /// memory should it overflow.
    pub fn consolidate_at<R: Fn(&LayeredMemory) -> u64>(&mut self, rank: &R, now_millis: i64)
        requires
            old(self).wf(),
            old(self).config_view().short_term_limit > 0,
            forall|m: &LayeredMemory| call_requires(*rank, (m,)),
        ensures
            final(self).wf(),
            final(self).config_view() == old(self).config_view(),
            consolidated(
                final(self).layers(),
                old(self).layers(),
                old(self).config_view().short_term_limit,
                old(self).config_view().promotion_threshold_permille,
                *rank,
                now_millis,
            ),
    {
        self.settle_working(rank, now_millis);
        let ghost l1 = self.layers();
        self.settle_short_term(now_millis);
        let ghost l2 = self.layers();
        self.drop_expired_episodic(now_millis);
        proof {
            let cfg = old(self).config;
            let mid = others(l1);
            let copies = choose|copies: Seq<LayeredMemory>|
                promoted_copies(copies, moving(l1.short_term, now_millis, cfg.promotion_threshold_permille), now_millis)
                && l2.long_term_episodic == l1.long_term_episodic + copies;
            assert(mid.short_term == l1.short_term);
            assert(promoted_into(mid, others(old(self).layers()), expired_ones(old(self).layers().working, now_millis), cfg.short_term_limit, *rank, now_millis));
            assert(promoted_copies(copies, moving(mid.short_term, now_millis, cfg.promotion_threshold_permille), now_millis));
            assert(self.layers() == (LayersView {
                working: unexpired(old(self).layers().working, now_millis),
                short_term: staying(mid.short_term, now_millis),
                long_term_episodic: unexpired(mid.long_term_episodic + copies, now_millis),
                long_term_semantic: mid.long_term_semantic,
                procedural: mid.procedural,
            }));
        }
    }
}

/// `ms` with the memory at `i` used at `now`.
pub open spec fn touched(ms: Seq<LayeredMemory>, i: int, now: i64) -> Seq<LayeredMemory> {
    ms.update(i, accessed(ms[i], now))
}

/// `after` is `before` once the first memory with identifier `id` is used
/// at `now`, searched for in working, short-term, episodic and semantic
/// memory in that order; procedural memory is not searched, and where no
/// memory has `id` nothing changes.
pub open spec fn access_recorded(after: LayersView, before: LayersView, id: uuid::Uuid, now: i64) -> bool {
    match first_with_id(before.working, id) {
        Some(i) => after == LayersView { working: touched(before.working, i, now), ..before },
        None => match first_with_id(before.short_term, id) {
            Some(i) => after == LayersView { short_term: touched(before.short_term, i, now), ..before },
            None => match first_with_id(before.long_term_episodic, id) {
                Some(i) => after == LayersView { long_term_episodic: touched(before.long_term_episodic, i, now), ..before },
                None => match first_with_id(before.long_term_semantic, id) {
                    Some(i) => after == LayersView {
                        long_term_semantic: touched(before.long_term_semantic, i, now),
                        ..before
                    },
                    None => after == before,
                },
            },
        },
    }
}

/// `m` is a memory of `content` from `source` under `id`, learned at `now`
/// into `layer`, which keeps it for good, with importance `importance`.
pub open spec fn learned(m: LayeredMemory, id: uuid::Uuid, content: Seq<char>, source: MemorySource, now: i64, layer: MemoryLayer, importance: u32) -> bool {
    &&& m.id == id
    &&& m.layer == layer
    &&& m.content@ == content
    &&& m.summary is None
    &&& m.embedding_bits is None
    &&& m.importance_permille == importance
    &&& m.access_count == 1
    &&& m.last_accessed_millis == now
    &&& m.created_at_millis == now
    &&& m.expires_at_millis is None
    &&& m.related@.len() == 0
    &&& m.source == source
    &&& m.metadata@.len() == 0
}

fn touch(ms: &mut Vec<LayeredMemory>, i: usize, now_millis: i64)
    requires
        i < old(ms)@.len(),
    ensures
        final(ms)@ == touched(old(ms)@, i as int, now_millis),
{
    let mut m = ms.remove(i);
    m.record_access_at(now_millis);
    ms.insert(i, m);
    assert(ms@ =~= touched(old(ms)@, i as int, now_millis));
}

proof fn lemma_touched_in(ms: Seq<LayeredMemory>, i: int, now: i64, l: MemoryLayer)
    requires
        all_in(ms, l),
        0 <= i < ms.len(),
    ensures
        all_in(touched(ms, i, now), l),
{
    assert forall|k: int| 0 <= k < ms.len() implies (#[trigger] touched(ms, i, now)[k]).layer == l by {
        assert(ms[k].layer == l);
    }
}

impl HierarchicalMemory {
    /// Add `memory` to working memory now; see `remember_at`.
    pub fn remember<R: Fn(&LayeredMemory) -> u64>(&mut self, memory: LayeredMemory, rank: &R)
        requires
            old(self).wf(),
            old(self).config_view().working_memory_limit > 0,
            old(self).config_view().short_term_limit > 0,
            forall|m: &LayeredMemory| call_requires(*rank, (m,)),
        ensures
            final(self).wf(),
            final(self).config_view() == old(self).config_view(),
            final(self).layers().working == old(self).layers().working.skip(
                evicted_count(old(self).layers().working.len() as int, old(self).config_view().working_memory_limit as int),
            ).push(memory),
            exists|now: i64| promoted_into(
                others(final(self).layers()),
                others(old(self).layers()),
                old(self).layers().working.take(
                    evicted_count(old(self).layers().working.len() as int, old(self).config_view().working_memory_limit as int),
                ),
                old(self).config_view().short_term_limit,
                *rank,
                now,
            ),
    {
        let now = utc_now_millis();
        self.remember_at(memory, rank, now);
    }

    /// Consolidate the layers now; see `consolidate_at`.
    pub fn consolidate<R: Fn(&LayeredMemory) -> u64>(&mut self, rank: &R)
        requires
            old(self).wf(),
            old(self).config_view().short_term_limit > 0,
            forall|m: &LayeredMemory| call_requires(*rank, (m,)),
        ensures
            final(self).wf(),
            final(self).config_view() == old(self).config_view(),
            exists|now: i64| consolidated(
                final(self).layers(),
                old(self).layers(),
                old(self).config_view().short_term_limit,
                old(self).config_view().promotion_threshold_permille,
                *rank,
                now,
            ),
    {
        let now = utc_now_millis();
        self.consolidate_at(rank, now);
    }

    /// Count a use, at `now_millis`, of the first memory with identifier
    /// `id` in working, short-term, episodic or semantic memory.
    pub fn record_access_at(&mut self, id: uuid::Uuid, now_millis: i64)
        requires
            old(self).wf(),
        ensures
            final(self).wf(),
            final(self).config_view() == old(self).config_view(),
            access_recorded(final(self).layers(), old(self).layers(), id, now_millis),
    {
        match index_with_id(&self.working, &id) {
            Some(i) => {
                touch(&mut self.working, i, now_millis);
                return;
            },
            None => {},
        }
        match index_with_id(&self.short_term, &id) {
            Some(i) => {
                touch(&mut self.short_term, i, now_millis);
                proof {
                    lemma_touched_in(old(self).short_term@, i as int, now_millis, MemoryLayer::ShortTerm);
                }
                return;
            },
            None => {},
        }
        match index_with_id(&self.long_term_episodic, &id) {
            Some(i) => {
                touch(&mut self.long_term_episodic, i, now_millis);
                proof {
                    lemma_touched_in(old(self).long_term_episodic@, i as int, now_millis, MemoryLayer::LongTermEpisodic);
                }
                return;
            },
            None => {},
        }
        match index_with_id(&self.long_term_semantic, &id) {
            Some(i) => {
                touch(&mut self.long_term_semantic, i, now_millis);
                proof {
                    lemma_touched_in(old(self).long_term_semantic@, i as int, now_millis, MemoryLayer::LongTermSemantic);
                }
            },
            None => {},
        }
    }

    /// Count a use, now, of the first memory with identifier `id`; see
    /// `record_access_at`.
    pub fn record_access(&mut self, id: uuid::Uuid)
        requires
            old(self).wf(),
        ensures
            final(self).wf(),
            final(self).config_view() == old(self).config_view(),
            exists|now: i64| access_recorded(final(self).layers(), old(self).layers(), id, now),
    {
        let now = utc_now_millis();
        self.record_access_at(id, now);
    }

    /// The memories of `layer`, in the order they were stored.
    pub fn memories_in(&self, layer: MemoryLayer) -> (r: &Vec<LayeredMemory>)
        ensures
            r@ == match layer {
                MemoryLayer::Working => self.layers().working,
                MemoryLayer::ShortTerm => self.layers().short_term,
                MemoryLayer::LongTermEpisodic => self.layers().long_term_episodic,
                MemoryLayer::LongTermSemantic => self.layers().long_term_semantic,
                MemoryLayer::Procedural => self.layers().procedural,
            },
    {
        match layer {
            MemoryLayer::Working => &self.working,
            MemoryLayer::ShortTerm => &self.short_term,
            MemoryLayer::LongTermEpisodic => &self.long_term_episodic,
            MemoryLayer::LongTermSemantic => &self.long_term_semantic,
            MemoryLayer::Procedural => &self.procedural,
        }
    }

    /// Copies of the working memories, oldest first.
    pub fn working_memory(&self) -> (r: Vec<LayeredMemory>)
        ensures
            same_memories(r@, self.layers().working),
    {
        let mut out: Vec<LayeredMemory> = Vec::new();
        let mut i: usize = 0;
        while i < self.working.len()
            invariant
                i <= self.working@.len(),
                out@.len() == i,
                forall|k: int| 0 <= k < i ==> same_memory(#[trigger] out@[k], self.working@[k]),
            decreases self.working@.len() - i,
        {
            out.push(self.working[i].duplicate());
            i = i + 1;
        }
        out
    }

    /// Empty working memory.
    pub fn clear_working(&mut self)
        requires
            old(self).wf(),
        ensures
            final(self).wf(),
            final(self).config_view() == old(self).config_view(),
            final(self).layers() == (LayersView { working: Seq::empty(), ..old(self).layers() }),
    {
        self.working.clear();
    }

    /// How many memories each layer holds.
    pub fn stats(&self) -> (r: MemoryStats)
        ensures
            r.working_count == self.layers().working.len(),
            r.short_term_count == self.layers().short_term.len(),
            r.long_term_episodic_count == self.layers().long_term_episodic.len(),
            r.long_term_semantic_count == self.layers().long_term_semantic.len(),
            r.procedural_count == self.layers().procedural.len(),
    {
        MemoryStats {
            working_count: self.working.len(),
            short_term_count: self.short_term.len(),
            long_term_episodic_count: self.long_term_episodic.len(),
            long_term_semantic_count: self.long_term_semantic.len(),
            procedural_count: self.procedural.len(),
        }
    }

    /// Learn `content` from `source` as a fact under `id` at `now_millis`:
    /// kept for good in semantic memory, of importance 800.
    pub fn learn_fact_at(&mut self, id: uuid::Uuid, content: &str, source: MemorySource, now_millis: i64)
        requires
            old(self).wf(),
        ensures
            final(self).wf(),
            final(self).config_view() == old(self).config_view(),
            final(self).layers().long_term_semantic.len() == old(self).layers().long_term_semantic.len() + 1,
            final(self).layers() == (LayersView {
                long_term_semantic: old(self).layers().long_term_semantic.push(final(self).layers().long_term_semantic.last()),
                ..old(self).layers()
            }),
            learned(final(self).layers().long_term_semantic.last(), id, content@, source, now_millis, MemoryLayer::LongTermSemantic, 800),
            final(self).layers().long_term_semantic.last().tags@.len() == 0,
    {
        let mut m = LayeredMemory::new_at(id, content, source, now_millis);
        m.layer = MemoryLayer::LongTermSemantic;
        m.importance_permille = 800;
        m.expires_at_millis = None;
        self.long_term_semantic.push(m);
        proof {
            assert(self.layers().long_term_semantic =~= old(self).layers().long_term_semantic.push(m));
        }
    }

    /// Learn a fact now under a fresh identifier; see `learn_fact_at`.
    pub fn learn_fact(&mut self, content: &str, source: MemorySource)
        requires
            old(self).wf(),
        ensures
            final(self).wf(),
            final(self).config_view() == old(self).config_view(),
            final(self).layers().long_term_semantic.len() == old(self).layers().long_term_semantic.len() + 1,
            final(self).layers() == (LayersView {
                long_term_semantic: old(self).layers().long_term_semantic.push(final(self).layers().long_term_semantic.last()),
                ..old(self).layers()
            }),
            final(self).layers().long_term_semantic.last().layer == MemoryLayer::LongTermSemantic,
            final(self).layers().long_term_semantic.last().content@ == content@,
            final(self).layers().long_term_semantic.last().importance_permille == 800,
            final(self).layers().long_term_semantic.last().expires_at_millis is None,
            final(self).layers().long_term_semantic.last().source == source,
    {
        let id = new_uuid();
        let now = utc_now_millis();
        self.learn_fact_at(id, content, source, now);
    }

    /// Learn the procedure `name`, `content` from `source`, under `id` at
    /// `now_millis`: kept for good in procedural memory, of importance 900,
    /// tagged with its name.
    pub fn learn_procedure_at(&mut self, id: uuid::Uuid, name: &str, content: &str, source: MemorySource, now_millis: i64)
        requires
            old(self).wf(),
        ensures
            final(self).wf(),
            final(self).config_view() == old(self).config_view(),
            final(self).layers().procedural.len() == old(self).layers().procedural.len() + 1,
            final(self).layers() == (LayersView {
                procedural: old(self).layers().procedural.push(final(self).layers().procedural.last()),
                ..old(self).layers()
            }),
            learned(final(self).layers().procedural.last(), id, content@, source, now_millis, MemoryLayer::Procedural, 900),
            final(self).layers().procedural.last().tags@.len() == 1,
            final(self).layers().procedural.last().tags@[0]@ == name@,
    {
        let mut m = LayeredMemory::new_at(id, content, source, now_millis);
        m.layer = MemoryLayer::Procedural;
        m.importance_permille = 900;
        m.expires_at_millis = None;
        m.tags.push(to_owned_string(name));
        self.procedural.push(m);
        proof {
            assert(self.layers().procedural =~= old(self).layers().procedural.push(m));
        }
    }

    /// Learn a procedure now under a fresh identifier; see
    /// `learn_procedure_at`.
    pub fn learn_procedure(&mut self, name: &str, content: &str, source: MemorySource)
        requires
            old(self).wf(),
        ensures
            final(self).wf(),
            final(self).config_view() == old(self).config_view(),
            final(self).layers().procedural.len() == old(self).layers().procedural.len() + 1,
            final(self).layers() == (LayersView {
                procedural: old(self).layers().procedural.push(final(self).layers().procedural.last()),
                ..old(self).layers()
            }),
            final(self).layers().procedural.last().layer == MemoryLayer::Procedural,
            final(self).layers().procedural.last().content@ == content@,
            final(self).layers().procedural.last().importance_permille == 900,
            final(self).layers().procedural.last().tags@.len() == 1,
            final(self).layers().procedural.last().tags@[0]@ == name@,
    {
        let id = new_uuid();
        let now = utc_now_millis();
        self.learn_procedure_at(id, name, content, source, now);
    }
}

proof fn lemma_stored_short_bound<R: Fn(&LayeredMemory) -> u64>(after: LayersView, before: LayersView, memory: LayeredMemory, limit: usize, rank: R, now: i64)
    requires
        stored(after, before, memory, limit, rank, now),
        before.short_term.len() <= limit,
        limit > 0,
    ensures
        after.short_term.len() <= limit,
{
    if memory.layer == MemoryLayer::ShortTerm && before.short_term.len() >= limit {
        let keys = choose|keys: Seq<u64>| ranks_of(rank, before.short_term, keys) && overflowed(after, before, memory, limit, keys, now);
        lemma_ranked_len(paired(keys, before.short_term));
    }
}

proof fn lemma_chain_short_bound<R: Fn(&LayeredMemory) -> u64>(chain: Seq<LayersView>, before: LayersView, items: Seq<LayeredMemory>, limit: usize, rank: R, now: i64, k: int)
    requires
        settled_through(chain, before, items, limit, rank, now),
        0 <= k <= items.len(),
        before.short_term.len() <= limit,
        limit > 0,
    ensures
        chain[k].short_term.len() <= limit,
    decreases k,
{
    if k > 0 {
        lemma_chain_short_bound(chain, before, items, limit, rank, now, k - 1);
        assert(settles(chain[k], chain[k - 1], items[k - 1], limit, rank, now));
        if due_for_promotion(items[k - 1]) {
            lemma_stored_short_bound(chain[k], chain[k - 1], promoted_at(items[k - 1], now), limit, rank, now);
        }
    }
}

/// Short-term memory within its limit stays within it as memories are
/// promoted into it.
pub proof fn lemma_short_term_stays_bounded<R: Fn(&LayeredMemory) -> u64>(after: LayersView, before: LayersView, items: Seq<LayeredMemory>, limit: usize, rank: R, now: i64)
    requires
        promoted_into(after, before, items, limit, rank, now),
        before.short_term.len() <= limit,
        limit > 0,
    ensures
        after.short_term.len() <= limit,
{
    let chain = choose|chain: Seq<LayersView>| #[trigger] settled_through(chain, before, items, limit, rank, now) && chain.last() == after;
    lemma_chain_short_bound(chain, before, items, limit, rank, now, items.len() as int);
}

proof fn lemma_staying_len(ms: Seq<LayeredMemory>, now: i64)
    ensures
        staying(ms, now).len() <= ms.len(),
    decreases ms.len(),
{
    if ms.len() > 0 {
        lemma_staying_len(ms.drop_last(), now);
    }
}

/// Consolidation keeps short-term memory within its limit.
pub proof fn lemma_consolidation_bounded<R: Fn(&LayeredMemory) -> u64>(after: LayersView, before: LayersView, limit: usize, threshold: u32, rank: R, now: i64)
    requires
        consolidated(after, before, limit, threshold, rank, now),
        before.short_term.len() <= limit,
        limit > 0,
    ensures
        after.short_term.len() <= limit,
{
    let (mid, copies) = choose|mid: LayersView, copies: Seq<LayeredMemory>|
        #![trigger promoted_into(mid, others(before), expired_ones(before.working, now), limit, rank, now), promoted_copies(copies, moving(mid.short_term, now, threshold), now)]
        promoted_into(mid, others(before), expired_ones(before.working, now), limit, rank, now)
        && promoted_copies(copies, moving(mid.short_term, now, threshold), now)
        && after == (LayersView {
            working: unexpired(before.working, now),
            short_term: staying(mid.short_term, now),
            long_term_episodic: unexpired(mid.long_term_episodic + copies, now),
            long_term_semantic: mid.long_term_semantic,
            procedural: mid.procedural,
        });
    lemma_short_term_stays_bounded(mid, others(before), expired_ones(before.working, now), limit, rank, now);
    lemma_staying_len(mid.short_term, now);
}

/// Promoted short-term memories land in episodic memory.
proof fn lemma_promotions_layer(popped: Seq<LayeredMemory>, now: i64)
    requires
        all_in(popped, MemoryLayer::ShortTerm),
    ensures
        all_in(promotions(popped, now), MemoryLayer::LongTermEpisodic),
    decreases popped.len(),
{
    if popped.len() > 0 {
        let t = popped.drop_last();
        assert(all_in(t, MemoryLayer::ShortTerm)) by {
            assert forall|i: int| 0 <= i < t.len() implies (#[trigger] t[i]).layer == MemoryLayer::ShortTerm by {
                assert(t[i] == popped[i]);
            }
        }
        lemma_promotions_layer(t, now);
        assert(popped.last() == popped[popped.len() - 1]);
    }
}

} // verus!
