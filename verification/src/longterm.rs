//! Long-term memories: what is remembered of a user across sessions, and
//! the grouping of related memories and the summaries that stand for them.
//!
//! Confidence is given in thousandths; instants in milliseconds since the
//! Unix epoch; embeddings as the bits of their `f32` components.

use vstd::prelude::*;
use crate::clock::utc_now_millis;
use crate::ids::new_uuid;
use crate::memory::{category_name, category_named, importance_level, longterm_prefix, longterm_session, longterm_user, max_importance_of, Importance, MemoryCategory};
use crate::ids::{parse_uuid, uuid_of_text, uuid_text};
use crate::mobile::{four_digit_year, parse_rfc3339_millis, rfc3339_millis, rfc3339_of_millis, rfc3339_text};
use crate::normalize::string_views;
use crate::text::to_owned_string;

verus! {

/// A memory kept of a user across sessions.
#[derive(Debug)]
pub struct LongTermMemory {
    pub id: uuid::Uuid,
    pub user_id: String,
    pub content: String,
    pub category: MemoryCategory,
    pub importance: Importance,
    /// In thousandths, at most 1000.
    pub confidence_permille: u32,
    /// The session it was drawn from, if any.
    pub source_session: Option<String>,
    /// Related memories, none twice.
    pub related_memories: Vec<uuid::Uuid>,
    pub tags: Vec<String>,
    pub created_at_millis: i64,
    pub last_accessed_millis: i64,
    pub access_count: u32,
    /// The embedding, each component an `f32` by its bits.
    pub embedding_bits: Option<Vec<u32>>,
}

impl LongTermMemory {
    /// A general memory of `content` for `user_id` under the identifier
    /// `id`, made at `now_millis`: of normal importance, fully confident,
    /// never used.
    pub fn new_at(id: uuid::Uuid, user_id: &str, content: &str, now_millis: i64) -> (r: Self)
        ensures
            r.id == id,
            r.user_id@ == user_id@,
            r.content@ == content@,
            r.category == MemoryCategory::General,
            r.importance == Importance::Normal,
            r.confidence_permille == 1000,
            r.source_session is None,
            r.related_memories@.len() == 0,
            r.tags@.len() == 0,
            r.created_at_millis == now_millis,
            r.last_accessed_millis == now_millis,
            r.access_count == 0,
            r.embedding_bits is None,
    {
        LongTermMemory {
            id,
            user_id: to_owned_string(user_id),
            content: to_owned_string(content),
            category: MemoryCategory::General,
            importance: Importance::Normal,
            confidence_permille: 1000,
            source_session: None,
            related_memories: Vec::new(),
            tags: Vec::new(),
            created_at_millis: now_millis,
            last_accessed_millis: now_millis,
            access_count: 0,
            embedding_bits: None,
        }
    }

    /// `new_at` under a fresh random identifier, now.
    pub fn new(user_id: &str, content: &str) -> (r: Self)
        ensures
            r.user_id@ == user_id@,
            r.content@ == content@,
            r.category == MemoryCategory::General,
            r.importance == Importance::Normal,
            r.confidence_permille == 1000,
            r.source_session is None,
            r.related_memories@.len() == 0,
            r.tags@.len() == 0,
            r.created_at_millis == r.last_accessed_millis,
            r.access_count == 0,
            r.embedding_bits is None,
    {
        LongTermMemory::new_at(new_uuid(), user_id, content, utc_now_millis())
    }

    /// The memory in `category`.
    pub fn with_category(self, category: MemoryCategory) -> (r: Self)
        ensures
            r == (LongTermMemory { category, ..self }),
    {
        let mut m = self;
        m.category = category;
        m
    }

    /// The memory with importance `importance`.
    pub fn with_importance(self, importance: Importance) -> (r: Self)
        ensures
            r == (LongTermMemory { importance, ..self }),
    {
        let mut m = self;
        m.importance = importance;
        m
    }

    /// The memory with confidence `confidence_permille`, at most 1000.
    pub fn with_confidence(self, confidence_permille: u32) -> (r: Self)
        ensures
            r == (LongTermMemory {
                confidence_permille: if confidence_permille > 1000 { 1000 } else { confidence_permille },
                ..self
            }),
    {
        let mut m = self;
        m.confidence_permille = if confidence_permille > 1000 { 1000 } else { confidence_permille };
        m
    }

    /// The memory drawn from the session `session_id`.
    pub fn from_session(self, session_id: &str) -> (r: Self)
        ensures
            r.source_session matches Some(s) && s@ == session_id@,
            r == (LongTermMemory { source_session: r.source_session, ..self }),
    {
        let mut m = self;
        m.source_session = Some(to_owned_string(session_id));
        m
    }

    /// The memory with `tag` added after its tags.
    pub fn with_tag(self, tag: &str) -> (r: Self)
        ensures
            r.tags@.len() == self.tags@.len() + 1,
            r.tags@.take(self.tags@.len() as int) == self.tags@,
            r.tags@.last()@ == tag@,
            r == (LongTermMemory { tags: r.tags, ..self }),
    {
        let mut m = self;
        m.tags.push(to_owned_string(tag));
        proof {
            assert(m.tags@.take(self.tags@.len() as int) =~= self.tags@);
        }
        m
    }

    /// The memory with `embedding_bits` as its embedding.
    pub fn with_embedding(self, embedding_bits: Vec<u32>) -> (r: Self)
        ensures
            r == (LongTermMemory { embedding_bits: Some(embedding_bits), ..self }),
    {
        let mut m = self;
        m.embedding_bits = Some(embedding_bits);
        m
    }

    /// The memory related to `memory_id`, added last unless already there.
    pub fn with_related(self, memory_id: uuid::Uuid) -> (r: Self)
        ensures
            r.related_memories@ == if self.related_memories@.contains(memory_id) {
                self.related_memories@
            } else {
                self.related_memories@.push(memory_id)
            },
            r == (LongTermMemory { related_memories: r.related_memories, ..self }),
    {
        let mut m = self;
        let mut found = false;
        let mut i: usize = 0;
        while i < m.related_memories.len()
            invariant
                i <= m.related_memories@.len(),
                m.related_memories@ == self.related_memories@,
                found <==> exists|j: int| 0 <= j < i && m.related_memories@[j] == memory_id,
            decreases m.related_memories@.len() - i,
        {
            if crate::ids::uuid_eq(&m.related_memories[i], &memory_id) {
                found = true;
            }
            i = i + 1;
        }
        if !found {
            m.related_memories.push(memory_id);
        }
        m
    }

    /// Count a use at `now_millis`.
    pub fn record_access_at(&mut self, now_millis: i64)
        requires
            old(self).access_count < u32::MAX,
        ensures
            *final(self) == (LongTermMemory {
                access_count: (old(self).access_count + 1) as u32,
                last_accessed_millis: now_millis,
                ..*old(self)
            }),
    {
        self.access_count = self.access_count + 1;
        self.last_accessed_millis = now_millis;
    }

    /// Count a use now.
    pub fn record_access(&mut self)
        requires
            old(self).access_count < u32::MAX,
        ensures
            final(self).access_count == old(self).access_count + 1,
            *final(self) == (LongTermMemory { last_accessed_millis: final(self).last_accessed_millis, ..*final(self) }),
            final(self).id == old(self).id,
            final(self).importance == old(self).importance,
            final(self).category == old(self).category,
    {
        self.record_access_at(utc_now_millis());
    }
}

/// Adding a relation keeps related memories free of repeats, and the
/// added memory among them.
pub proof fn lemma_related_no_repeats(related: Seq<uuid::Uuid>, memory_id: uuid::Uuid)
    requires
        related.no_duplicates(),
    ensures
        (if related.contains(memory_id) { related } else { related.push(memory_id) }).no_duplicates(),
        (if related.contains(memory_id) { related } else { related.push(memory_id) }).contains(memory_id),
{
    let r = if related.contains(memory_id) { related } else { related.push(memory_id) };
    if !related.contains(memory_id) {
        assert(r[related.len() as int] == memory_id);
        assert forall|i: int, j: int| 0 <= i < r.len() && 0 <= j < r.len() && i != j implies r[i] != r[j] by {
            if i < related.len() && j < related.len() {
                assert(r[i] == related[i] && r[j] == related[j]);
            } else if i < related.len() {
                assert(r[i] == related[i]);
            } else if j < related.len() {
                assert(r[j] == related[j]);
            }
        }
    }
}

/// Groups related long-term memories for consolidation.
#[derive(Debug, Clone, Copy, PartialEq, Eq, Structural)]
pub struct MemoryConsolidator {
    /// How similar, in thousandths, two embeddings must be to group.
    pub group_threshold_permille: u32,
    /// The most memories one group takes.
    pub max_merge_count: usize,
}

/// Memories `i` and `j` of `ms` may share a group: of one category, both
/// embedded, and with embeddings close by `close`.
pub open spec fn joinable(ms: Seq<LongTermMemory>, close: Seq<Vec<bool>>, i: int, j: int) -> bool {
    &&& ms[i].category == ms[j].category
    &&& ms[i].embedding_bits is Some
    &&& ms[j].embedding_bits is Some
    &&& close[i]@[j]
}

/// The group that memory `i` starts, once the memories after it and before
/// `j` are looked at in turn: each joins while the group has fewer than
/// `max` members, if it is in no group yet (`taken`) and may share one with
/// memory `i`.
pub open spec fn group_from(ms: Seq<LongTermMemory>, close: Seq<Vec<bool>>, max: usize, taken: Set<int>, i: int, j: int) -> Seq<int>
    decreases j - i,
{
    if j <= i + 1 {
        seq![i]
    } else {
        let g = group_from(ms, close, max, taken, i, j - 1);
        if !taken.contains(j - 1) && g.len() < max && joinable(ms, close, i, j - 1) {
            g.push(j - 1)
        } else {
            g
        }
    }
}

/// The groups found, and the memories in some group, once the first `k`
/// memories are looked at in turn: each not yet in a group starts one, kept
/// where another memory joined it.
pub open spec fn groups_upto(ms: Seq<LongTermMemory>, close: Seq<Vec<bool>>, max: usize, k: int) -> (Seq<Seq<int>>, Set<int>)
    decreases k,
{
    if k <= 0 {
        (Seq::empty(), Set::empty())
    } else {
        let (gs, taken) = groups_upto(ms, close, max, k - 1);
        if taken.contains(k - 1) {
            (gs, taken)
        } else {
            let g = group_from(ms, close, max, taken, k - 1, ms.len() as int);
            (if g.len() > 1 { gs.push(g) } else { gs }, taken.union(g.to_set()))
        }
    }
}

/// The groups as indices.
pub open spec fn group_indices(gs: Seq<Vec<usize>>) -> Seq<Seq<int>> {
    gs.map_values(|g: Vec<usize>| g@.map_values(|x: usize| x as int))
}

proof fn lemma_group_from_bounds(ms: Seq<LongTermMemory>, close: Seq<Vec<bool>>, max: usize, taken: Set<int>, i: int, j: int)
    requires
        i < j,
    ensures
        group_from(ms, close, max, taken, i, j).len() >= 1,
        group_from(ms, close, max, taken, i, j)[0] == i,
        forall|k: int| 1 <= k < group_from(ms, close, max, taken, i, j).len() ==> i < #[trigger] group_from(ms, close, max, taken, i, j)[k] < j,
        group_from(ms, close, max, taken, i, j).len() <= j - i,
    decreases j - i,
{
    if j > i + 1 {
        lemma_group_from_bounds(ms, close, max, taken, i, j - 1);
    }
}

impl MemoryConsolidator {
    /// Groups of at most ten memories, similar to eight tenths.
    pub fn new() -> (r: Self)
        ensures
            r == (MemoryConsolidator { group_threshold_permille: 800, max_merge_count: 10 }),
    {
        MemoryConsolidator { group_threshold_permille: 800, max_merge_count: 10 }
    }

    /// The consolidator grouping at similarity `threshold_permille`.
    pub fn with_threshold(self, threshold_permille: u32) -> (r: Self)
        ensures
            r == (MemoryConsolidator { group_threshold_permille: threshold_permille, ..self }),
    {
        MemoryConsolidator { group_threshold_permille: threshold_permille, ..self }
    }

    fn grow_group(&self, memories: &Vec<LongTermMemory>, close: &Vec<Vec<bool>>, i: usize, assigned: &mut Vec<bool>) -> (r: Vec<usize>)
        requires
            i < memories@.len(),
            close@.len() == memories@.len(),
            forall|k: int| 0 <= k < close@.len() ==> (#[trigger] close@[k])@.len() == memories@.len(),
            old(assigned)@.len() == memories@.len(),
            !old(assigned)@[i as int],
        ensures
            r@.map_values(|x: usize| x as int) == group_from(
                memories@,
                close@,
                self.max_merge_count,
                Set::new(|k: int| 0 <= k < memories@.len() && old(assigned)@[k]),
                i as int,
                memories@.len() as int,
            ),
            final(assigned)@.len() == memories@.len(),
            forall|k: int| 0 <= k < memories@.len() ==> (#[trigger] final(assigned)@[k] <==> (old(assigned)@[k]
                || r@.map_values(|x: usize| x as int).contains(k))),
    {
        let ghost taken = Set::new(|k: int| 0 <= k < memories@.len() && old(assigned)@[k]);
        let ghost ms = memories@;
        let n = memories.len();
        let mut group: Vec<usize> = Vec::new();
        group.push(i);
        assigned.set(i, true);
        let mut j: usize = i + 1;
        proof {
            assert(group@.map_values(|x: usize| x as int) =~= seq![i as int]);
            assert forall|k: int| 0 <= k < n implies (#[trigger] assigned@[k] <==> (old(assigned)@[k]
                || group@.map_values(|x: usize| x as int).contains(k))) by {
                if k == i {
                    assert(group@.map_values(|x: usize| x as int)[0] == k);
                }
            }
        }
        while j < n
            invariant
                i < j <= n,
                n == ms.len(),
                ms == memories@,
                close@.len() == n,
                forall|k: int| 0 <= k < close@.len() ==> (#[trigger] close@[k])@.len() == n,
                group@.map_values(|x: usize| x as int) == group_from(ms, close@, self.max_merge_count, taken, i as int, j as int),
                assigned@.len() == n,
                old(assigned)@.len() == n,
                taken == Set::new(|k: int| 0 <= k < ms.len() && old(assigned)@[k]),
                forall|k: int| 0 <= k < n ==> (#[trigger] assigned@[k] <==> (old(assigned)@[k]
                    || group@.map_values(|x: usize| x as int).contains(k))),
            decreases n - j,
        {
            let ghost g = group@.map_values(|x: usize| x as int);
            proof {
                lemma_group_from_bounds(ms, close@, self.max_merge_count, taken, i as int, j as int);
                assert(!g.contains(j as int));
                assert(g.len() == group@.len());
            }
            if !assigned[j] && group.len() < self.max_merge_count {
                let same = memories[i].category == memories[j].category;
                let both = memories[i].embedding_bits.is_some() && memories[j].embedding_bits.is_some();
                if same && both && close[i][j] {
                    group.push(j);
                    assigned.set(j, true);
                    proof {
                        let g2 = group@.map_values(|x: usize| x as int);
                        assert(g2 =~= g.push(j as int));
                        assert forall|k: int| 0 <= k < n implies (#[trigger] assigned@[k] <==> (old(assigned)@[k]
                            || g2.contains(k))) by {
                            if k == j {
                                assert(g2[g.len() as int] == k);
                            } else if g2.contains(k) {
                                let w = choose|w: int| 0 <= w < g2.len() && g2[w] == k;
                                assert(g[w] == k);
                            } else if g.contains(k) {
                                let w = choose|w: int| 0 <= w < g.len() && g[w] == k;
                                assert(g2[w] == k);
                            }
                        }
                    }
                }
            }
            proof {
                assert(taken.contains(j as int) == old(assigned)@[j as int]);
            }
            j = j + 1;
        }
        group
    }

    /// Groups of related memories among `memories`, as their positions:
    /// each memory not yet in a group starts one, which the later memories
    /// of its category join in turn, while it has room, where both are
    /// embedded and `close` says, at the row of the one and the column of
    /// the other, that their embeddings are similar enough; groups of one
    /// are dropped.
    pub fn find_groups(&self, memories: &Vec<LongTermMemory>, close: &Vec<Vec<bool>>) -> (r: Vec<Vec<usize>>)
        requires
            close@.len() == memories@.len(),
            forall|k: int| 0 <= k < close@.len() ==> (#[trigger] close@[k])@.len() == memories@.len(),
        ensures
            group_indices(r@) == groups_upto(memories@, close@, self.max_merge_count, memories@.len() as int).0,
    {
        let n = memories.len();
        let ghost ms = memories@;
        let mut groups: Vec<Vec<usize>> = Vec::new();
        let mut assigned: Vec<bool> = Vec::new();
        let mut k: usize = 0;
        while k < n
            invariant
                k <= n,
                assigned@.len() == k,
                forall|t: int| 0 <= t < k ==> !(#[trigger] assigned@[t]),
            decreases n - k,
        {
            assigned.push(false);
            k = k + 1;
        }
        let mut i: usize = 0;
        proof {
            assert(group_indices(groups@) =~= Seq::<Seq<int>>::empty());
        }
        while i < n
            invariant
                i <= n,
                n == ms.len(),
                ms == memories@,
                close@.len() == n,
                forall|k: int| 0 <= k < close@.len() ==> (#[trigger] close@[k])@.len() == n,
                assigned@.len() == n,
                group_indices(groups@) == groups_upto(ms, close@, self.max_merge_count, i as int).0,
                forall|t: int| 0 <= t < n ==> (#[trigger] assigned@[t] <==> groups_upto(ms, close@, self.max_merge_count, i as int).1.contains(t)),
            decreases n - i,
        {
            let ghost before = groups_upto(ms, close@, self.max_merge_count, i as int);
            let ghost taken = Set::new(|t: int| 0 <= t < n && assigned@[t]);
            proof {
                assert(groups_upto(ms, close@, self.max_merge_count, i as int + 1) == (
                    if before.1.contains(i as int) { before } else {
                        let g = group_from(ms, close@, self.max_merge_count, before.1, i as int, n as int);
                        (if g.len() > 1 { before.0.push(g) } else { before.0 }, before.1.union(g.to_set()))
                    }));
            }
            if !assigned[i] {
                let ghost old_assigned = assigned@;
                let group = self.grow_group(memories, close, i, &mut assigned);
                let ghost g = group@.map_values(|x: usize| x as int);
                proof {
                    lemma_group_from_bounds(ms, close@, self.max_merge_count, taken, i as int, n as int);
                    assert forall|t: int| #[trigger] before.1.contains(t) implies 0 <= t < n by {
                        lemma_groups_upto_bounds(ms, close@, self.max_merge_count, i as int, t);
                    }
                    assert(taken =~= before.1);
                    assert forall|t: int| 0 <= t < n implies (#[trigger] assigned@[t] <==> before.1.union(g.to_set()).contains(t)) by {
                        assert(g.to_set().contains(t) <==> g.contains(t));
                    }
                }
                if group.len() > 1 {
                    groups.push(group);
                    proof {
                        assert(group_indices(groups@) =~= before.0.push(g));
                    }
                }
            }
            i = i + 1;
        }
        groups
    }
}

proof fn lemma_groups_upto_bounds(ms: Seq<LongTermMemory>, close: Seq<Vec<bool>>, max: usize, k: int, t: int)
    requires
        0 <= k <= ms.len(),
        groups_upto(ms, close, max, k).1.contains(t),
    ensures
        0 <= t < ms.len(),
    decreases k,
{
    if k > 0 {
        let (gs, taken) = groups_upto(ms, close, max, k - 1);
        if taken.contains(t) {
            lemma_groups_upto_bounds(ms, close, max, k - 1, t);
        } else if !taken.contains(k - 1) {
            let g = group_from(ms, close, max, taken, k - 1, ms.len() as int);
            lemma_group_from_bounds(ms, close, max, taken, k - 1, ms.len() as int);
            assert(g.to_set().contains(t));
            assert(g.contains(t));
        }
    }
}

/// The sum of the confidences of `ms`.
pub open spec fn confidence_sum(ms: Seq<&LongTermMemory>) -> int
    decreases ms.len(),
{
    if ms.len() == 0 {
        0
    } else {
        confidence_sum(ms.drop_last()) + ms.last().confidence_permille
    }
}

/// The importances of `ms`, in order.
pub open spec fn importances(ms: Seq<&LongTermMemory>) -> Seq<Importance> {
    ms.map_values(|m: &LongTermMemory| m.importance)
}

proof fn lemma_confidence_sum_bound(ms: Seq<&LongTermMemory>)
    ensures
        0 <= confidence_sum(ms) <= ms.len() * 0xffff_ffff,
    decreases ms.len(),
{
    if ms.len() > 0 {
        lemma_confidence_sum_bound(ms.drop_last());
    }
}

impl MemoryConsolidator {
    /// A summary of `memories` under `id`, made at `now_millis`: a memory of
    /// `summary_content` for the first memory's user, in the summary
    /// category, as important as the most important of them, as confident
    /// as they are on average (rounded down), with `summary_embedding` (or
    /// an empty one) and tagged as consolidated.
    pub fn create_summary_at(&self, id: uuid::Uuid, now_millis: i64, memories: &[&LongTermMemory], summary_content: &str, summary_embedding: Option<Vec<u32>>) -> (r: LongTermMemory)
        requires
            memories@.len() > 0,
        ensures
            r.id == id,
            r.user_id@ == memories@[0].user_id@,
            r.content@ == summary_content@,
            r.category == MemoryCategory::Summary,
            r.importance == max_importance_of(importances(memories@)),
            r.confidence_permille == if confidence_sum(memories@) / (memories@.len() as int) > 1000 {
                1000
            } else {
                confidence_sum(memories@) / (memories@.len() as int)
            },
            r.source_session is None,
            r.related_memories@.len() == 0,
            r.tags@.len() == 1,
            r.tags@[0]@ == "consolidated"@,
            r.created_at_millis == now_millis,
            r.last_accessed_millis == now_millis,
            r.access_count == 0,
            r.embedding_bits matches Some(e) && e@ == match summary_embedding {
                Some(v) => v@,
                None => Seq::<u32>::empty(),
            },
    {
        let n = memories.len();
        let mut levels: Vec<Importance> = Vec::new();
        let mut sum: u128 = 0;
        let mut i: usize = 0;
        while i < n
            invariant
                i <= n,
                n == memories@.len(),
                levels@ == importances(memories@.take(i as int)),
                sum == confidence_sum(memories@.take(i as int)),
            decreases n - i,
        {
            proof {
                let t = memories@.take(i as int + 1);
                assert(t.drop_last() =~= memories@.take(i as int));
                lemma_confidence_sum_bound(t);
                assert(t.len() * 0xffff_ffff <= 0xffff_ffff_ffff_ffff * 0xffff_ffff) by (nonlinear_arith)
                    requires
                        t.len() <= 0xffff_ffff_ffff_ffff;
            }
            levels.push(memories[i].importance);
            sum = sum + memories[i].confidence_permille as u128;
            proof {
                assert(levels@ =~= importances(memories@.take(i as int + 1)));
            }
            i = i + 1;
        }
        proof {
            assert(memories@.take(n as int) =~= memories@);
        }
        let importance = crate::memory::max_importance(&levels);
        let avg = sum / (n as u128);
        let confidence: u32 = if avg > 1000 { 1000 } else { avg as u32 };
        let embedding = match summary_embedding {
            Some(v) => v,
            None => Vec::new(),
        };
        let m = LongTermMemory::new_at(id, memories[0].user_id.as_str(), summary_content, now_millis);
        m.with_category(MemoryCategory::Summary)
            .with_importance(importance)
            .with_confidence(confidence)
            .with_embedding(embedding)
            .with_tag("consolidated")
    }

    /// A summary of `memories` under a fresh identifier, now; see
    /// `create_summary_at`.
    pub fn create_summary(&self, memories: &[&LongTermMemory], summary_content: &str, summary_embedding: Option<Vec<u32>>) -> (r: LongTermMemory)
        requires
            memories@.len() > 0,
        ensures
            r.user_id@ == memories@[0].user_id@,
            r.content@ == summary_content@,
            r.category == MemoryCategory::Summary,
            r.importance == max_importance_of(importances(memories@)),
            r.confidence_permille == if confidence_sum(memories@) / (memories@.len() as int) > 1000 {
                1000
            } else {
                confidence_sum(memories@) / (memories@.len() as int)
            },
            r.tags@.len() == 1,
            r.tags@[0]@ == "consolidated"@,
            r.access_count == 0,
            r.embedding_bits matches Some(e) && e@ == match summary_embedding {
                Some(v) => v@,
                None => Seq::<u32>::empty(),
            },
    {
        self.create_summary_at(new_uuid(), utc_now_millis(), memories, summary_content, summary_embedding)
    }
}

/// A summary is as important as each memory it stands for.
pub proof fn lemma_summary_importance(ms: Seq<&LongTermMemory>, k: int)
    requires
        0 <= k < ms.len(),
    ensures
        importance_level(ms[k].importance) <= importance_level(max_importance_of(importances(ms))),
    decreases ms.len(),
{
    if ms.len() > 1 {
        let t = ms.drop_last();
        assert(importances(ms).drop_last() =~= importances(t));
        if k < ms.len() - 1 {
            assert(t[k] == ms[k]);
            lemma_summary_importance(t, k);
        }
    }
}

/// A stored memory entry.
#[derive(Debug)]
pub struct Memory {
    pub id: uuid::Uuid,
    pub session_id: String,
    pub content: String,
    /// Who said it: user, assistant, system.
    pub role: String,
    /// The embedding, each component an `f32` by its bits.
    pub embedding_bits: Option<Vec<u32>>,
    pub created_at_millis: i64,
    /// Metadata, as JSON.
    pub metadata: serde_json::Value,
}

impl Memory {
    /// An entry of `content` said by `role` in `session_id`, under `id`,
    /// made at `now_millis`, without embedding, its metadata JSON null.
    pub fn new_at(id: uuid::Uuid, session_id: &str, role: &str, content: &str, now_millis: i64) -> (r: Self)
        ensures
            r.id == id,
            r.session_id@ == session_id@,
            r.role@ == role@,
            r.content@ == content@,
            r.embedding_bits is None,
            r.created_at_millis == now_millis,
    {
        Memory {
            id,
            session_id: to_owned_string(session_id),
            content: to_owned_string(content),
            role: to_owned_string(role),
            embedding_bits: None,
            created_at_millis: now_millis,
            metadata: crate::json::json_null(),
        }
    }

    /// `new_at` under a fresh identifier, now.
    pub fn new(session_id: &str, role: &str, content: &str) -> (r: Self)
        ensures
            r.session_id@ == session_id@,
            r.role@ == role@,
            r.content@ == content@,
            r.embedding_bits is None,
    {
        Memory::new_at(new_uuid(), session_id, role, content, utc_now_millis())
    }

    /// The entry with `embedding_bits` as its embedding.
    pub fn with_embedding(self, embedding_bits: Vec<u32>) -> (r: Self)
        ensures
            r == (Memory { embedding_bits: Some(embedding_bits), ..self }),
    {
        Memory { embedding_bits: Some(embedding_bits), ..self }
    }

    /// The entry with `metadata` as its metadata.
    pub fn with_metadata(self, metadata: serde_json::Value) -> (r: Self)
        ensures
            r == (Memory { metadata, ..self }),
    {
        Memory { metadata, ..self }
    }
}

/// What the metadata of a stored long-term memory holds, each entry read
/// from the JSON by the caller: `None` where it is missing or not of its
/// kind (a string, a whole number, an array of strings of which only the
/// strings are kept); the confidence in thousandths.
#[derive(Debug)]
pub struct LongTermMetadata {
    /// The entry `type`.
    pub kind: Option<String>,
    pub category: Option<String>,
    pub importance: Option<u64>,
    pub confidence_permille: Option<u32>,
    pub source_session: Option<String>,
    pub related_memories: Option<Vec<String>>,
    pub tags: Option<Vec<String>>,
    pub last_accessed: Option<String>,
    pub access_count: Option<u64>,
}

/// The importance of level `level`; any other level is normal.
pub open spec fn importance_at(level: u64) -> Importance {
    if level == 1 {
        Importance::Low
    } else if level == 3 {
        Importance::High
    } else if level == 4 {
        Importance::Critical
    } else {
        Importance::Normal
    }
}

/// The identifiers that the texts `ts` hold, in order; the others are
/// skipped.
pub open spec fn parsed_ids(ts: Seq<Seq<char>>) -> Seq<uuid::Uuid>
    decreases ts.len(),
{
    if ts.len() == 0 {
        Seq::empty()
    } else {
        match uuid_of_text(ts.last()) {
            Some(id) => parsed_ids(ts.drop_last()).push(id),
            None => parsed_ids(ts.drop_last()),
        }
    }
}

/// The text of an optional string.
pub open spec fn opt_text(o: Option<String>) -> Option<Seq<char>> {
    match o {
        Some(s) => Some(s@),
        None => None,
    }
}

/// The embedding of an optional vector.
pub open spec fn opt_bits(o: Option<Vec<u32>>) -> Option<Seq<u32>> {
    match o {
        Some(v) => Some(v@),
        None => None,
    }
}

/// A stored entry with metadata `md` holds a long-term memory: it is
/// marked as one, sits in a user's long-term session, and names a
/// category and a whole-number importance.
pub open spec fn holds_longterm(m: Memory, md: LongTermMetadata) -> bool {
    &&& md.kind matches Some(k) && k@ == "longterm"@
    &&& exists|u: Seq<char>| m.session_id@ == longterm_prefix() + u
    &&& md.category is Some
    &&& md.importance is Some
}

/// When a memory read from metadata entry `text` was last used: the
/// instant it holds, else `created`.
pub open spec fn last_used(text: Option<String>, created: i64) -> i64 {
    match text {
        Some(t) => match rfc3339_millis(t@) {
            Some(ms) => ms,
            None => created,
        },
        None => created,
    }
}

/// `l` is the long-term memory that the stored entry `m` with metadata
/// `md` holds.
pub open spec fn read_back(l: LongTermMemory, m: Memory, md: LongTermMetadata) -> bool {
    &&& l.id == m.id
    &&& m.session_id@ == longterm_prefix() + l.user_id@
    &&& l.content@ == m.content@
    &&& l.category == category_named(md.category->0@)
    &&& l.importance == importance_at(md.importance->0)
    &&& l.confidence_permille == match md.confidence_permille {
        Some(c) => c,
        None => 1000,
    }
    &&& opt_text(l.source_session) == opt_text(md.source_session)
    &&& l.related_memories@ == match md.related_memories {
        Some(v) => parsed_ids(string_views(v@)),
        None => Seq::empty(),
    }
    &&& string_views(l.tags@) == match md.tags {
        Some(v) => string_views(v@),
        None => Seq::empty(),
    }
    &&& l.created_at_millis == m.created_at_millis
    &&& l.last_accessed_millis == last_used(md.last_accessed, m.created_at_millis)
    &&& l.access_count == (match md.access_count {
        Some(n) => n,
        None => 0,
    } % 0x1_0000_0000) as u32
    &&& opt_bits(l.embedding_bits) == opt_bits(m.embedding_bits)
}

fn copy_strings_opt(o: &Option<Vec<String>>) -> (r: Vec<String>)
    ensures
        string_views(r@) == match o {
            Some(v) => string_views(v@),
            None => Seq::empty(),
        },
{
    match o {
        Some(v) => {
            let c = crate::memory_graph::copy_strings(v);
            c
        },
        None => {
            let e: Vec<String> = Vec::new();
            assert(string_views(e@) =~= Seq::<Seq<char>>::empty());
            e
        },
    }
}

fn parse_ids(o: &Option<Vec<String>>) -> (r: Vec<uuid::Uuid>)
    ensures
        r@ == match o {
            Some(v) => parsed_ids(string_views(v@)),
            None => Seq::empty(),
        },
{
    let mut out: Vec<uuid::Uuid> = Vec::new();
    match o {
        Some(v) => {
            let ghost ts = string_views(v@);
            let mut i: usize = 0;
            while i < v.len()
                invariant
                    i <= v@.len(),
                    ts == string_views(v@),
                    out@ == parsed_ids(ts.take(i as int)),
                decreases v@.len() - i,
            {
                proof {
                    assert(ts.take(i as int + 1).drop_last() =~= ts.take(i as int));
                    assert(ts.take(i as int + 1).last() == v@[i as int]@);
                }
                match parse_uuid(v[i].as_str()) {
                    Some(id) => out.push(id),
                    None => {},
                }
                i = i + 1;
            }
            assert(ts.take(i as int) =~= ts);
        },
        None => {},
    }
    out
}

fn copy_bits_opt(o: &Option<Vec<u32>>) -> (r: Option<Vec<u32>>)
    ensures
        opt_bits(r) == opt_bits(*o),
{
    match o {
        Some(v) => {
            let mut c: Vec<u32> = Vec::new();
            let mut i: usize = 0;
            while i < v.len()
                invariant
                    i <= v@.len(),
                    c@ == v@.take(i as int),
                decreases v@.len() - i,
            {
                c.push(v[i]);
                assert(v@.take(i as int + 1) =~= v@.take(i as int).push(v@[i as int]));
                i = i + 1;
            }
            assert(v@.take(i as int) =~= v@);
            Some(c)
        },
        None => None,
    }
}

fn copy_text_opt(o: &Option<String>) -> (r: Option<String>)
    ensures
        opt_text(r) == opt_text(*o),
{
    match o {
        Some(s) => Some(s.clone()),
        None => None,
    }
}

/// The long-term memory that the stored entry `memory` holds, where its
/// metadata, as read into `metadata`, marks it as one: none unless it
/// is marked `longterm`, sits in a user's long-term session, and names a
/// category and a whole-number importance.
pub fn memory_to_longterm(memory: &Memory, metadata: &LongTermMetadata) -> (r: Option<LongTermMemory>)
    ensures
        r is Some == holds_longterm(*memory, *metadata),
        r matches Some(l) ==> read_back(l, *memory, *metadata),
{
    let kind_ok = match &metadata.kind {
        Some(k) => crate::text::str_eq(k.as_str(), "longterm"),
        None => false,
    };
    if !kind_ok {
        return None;
    }
    let user_id = match longterm_user(memory.session_id.as_str()) {
        Some(u) => u,
        None => return None,
    };
    let category = match &metadata.category {
        Some(c) => MemoryCategory::from_name(c.as_str()),
        None => return None,
    };
    let importance = match metadata.importance {
        Some(n) => Importance::from_level(n),
        None => return None,
    };
    proof {
        if importance == Importance::Normal {
        }
    }
    let confidence_permille = match metadata.confidence_permille {
        Some(c) => c,
        None => 1000,
    };
    let last_accessed_millis = match &metadata.last_accessed {
        Some(t) => match parse_rfc3339_millis(t.as_str()) {
            Some(ms) => ms,
            None => memory.created_at_millis,
        },
        None => memory.created_at_millis,
    };
    let count: u64 = match metadata.access_count {
        Some(n) => n,
        None => 0,
    };
    let l = LongTermMemory {
        id: memory.id,
        user_id,
        content: memory.content.clone(),
        category,
        importance,
        confidence_permille,
        source_session: copy_text_opt(&metadata.source_session),
        related_memories: parse_ids(&metadata.related_memories),
        tags: copy_strings_opt(&metadata.tags),
        created_at_millis: memory.created_at_millis,
        last_accessed_millis,
        access_count: (count % 0x1_0000_0000) as u32,
        embedding_bits: copy_bits_opt(&memory.embedding_bits),
    };
    proof {
        reveal_strlit("longterm");
        let n = metadata.importance->0;
        assert(importance == importance_at(n)) by {
            if n == 1 { assert(importance_level(importance) == 1); }
            else if n == 3 { assert(importance_level(importance) == 3); }
            else if n == 4 { assert(importance_level(importance) == 4); }
            else if n == 2 { assert(importance_level(importance) == 2); }
        }
    }
    Some(l)
}

/// What the metadata of a stored long-term memory `l` holds: marked
/// `longterm`, its category's name, its importance's level, its
/// confidence, its source session, its related memories as text, its tags,
/// when it was last used in RFC 3339 (where `chrono` can write that
/// instant), and how often it was used.
pub fn longterm_metadata(l: &LongTermMemory) -> (r: LongTermMetadata)
    ensures
        r.kind matches Some(k) && k@ == "longterm"@,
        r.category matches Some(c) && c@ == category_name(l.category),
        r.importance == Some(importance_level(l.importance) as u64),
        r.confidence_permille == Some(l.confidence_permille),
        opt_text(r.source_session) == opt_text(l.source_session),
        r.related_memories matches Some(v) && v@.len() == l.related_memories@.len() && forall|i: int|
            0 <= i < v@.len() ==> uuid_of_text((#[trigger] v@[i])@) == Some(l.related_memories@[i]),
        r.tags matches Some(t) && string_views(t@) == string_views(l.tags@),
        opt_text(r.last_accessed) == rfc3339_text(l.last_accessed_millis),
        four_digit_year(l.last_accessed_millis) ==> (r.last_accessed matches Some(t)
            && rfc3339_millis(t@) == Some(l.last_accessed_millis)),
        r.access_count == Some(l.access_count as u64),
{
    let mut related: Vec<String> = Vec::new();
    let mut i: usize = 0;
    while i < l.related_memories.len()
        invariant
            i <= l.related_memories@.len(),
            related@.len() == i,
            forall|j: int| 0 <= j < i ==> uuid_of_text((#[trigger] related@[j])@) == Some(l.related_memories@[j]),
        decreases l.related_memories@.len() - i,
    {
        related.push(uuid_text(&l.related_memories[i]));
        i = i + 1;
    }
    let last = rfc3339_of_millis(l.last_accessed_millis);
    proof {
        if four_digit_year(l.last_accessed_millis) {
            assert(last is Some);
        }
    }
    LongTermMetadata {
        kind: Some(to_owned_string("longterm")),
        category: Some(to_owned_string(l.category.name())),
        importance: Some(l.importance.level() as u64),
        confidence_permille: Some(l.confidence_permille),
        source_session: copy_text_opt(&l.source_session),
        related_memories: Some(related),
        tags: Some(crate::memory_graph::copy_strings(&l.tags)),
        last_accessed: last,
        access_count: Some(l.access_count as u64),
    }
}

/// The stored entry for the long-term memory `l`, with `metadata` as its
/// metadata: under its identifier, in its user's long-term session, said
/// by `memory`, with its content, embedding and creation time.
pub fn longterm_record(l: &LongTermMemory, metadata: serde_json::Value) -> (r: Memory)
    ensures
        r.id == l.id,
        r.session_id@ == longterm_prefix() + l.user_id@,
        r.content@ == l.content@,
        r.role@ == "memory"@,
        opt_bits(r.embedding_bits) == opt_bits(l.embedding_bits),
        r.created_at_millis == l.created_at_millis,
        r.metadata == metadata,
{
    Memory {
        id: l.id,
        session_id: longterm_session(l.user_id.as_str()),
        content: l.content.clone(),
        role: to_owned_string("memory"),
        embedding_bits: copy_bits_opt(&l.embedding_bits),
        created_at_millis: l.created_at_millis,
        metadata,
    }
}

proof fn lemma_parsed_back(texts: Seq<Seq<char>>, ids: Seq<uuid::Uuid>)
    requires
        texts.len() == ids.len(),
        forall|i: int| 0 <= i < texts.len() ==> uuid_of_text(#[trigger] texts[i]) == Some(ids[i]),
    ensures
        parsed_ids(texts) == ids,
    decreases texts.len(),
{
    if texts.len() > 0 {
        let t = texts.drop_last();
        let d = ids.drop_last();
        assert forall|i: int| 0 <= i < t.len() implies uuid_of_text(#[trigger] t[i]) == Some(d[i]) by {
            assert(t[i] == texts[i]);
        }
        lemma_parsed_back(t, d);
        assert(uuid_of_text(texts.last()) == Some(ids.last()));
        assert(ids =~= d.push(ids.last()));
    }
}

/// Storing a long-term memory and reading it back gives the same memory:
/// the entry written for `l` with the metadata written for it reads back
/// as a memory with every field of `l`, where `l` was last used in the
/// years 0 to 9999.
pub proof fn lemma_longterm_roundtrip(l: LongTermMemory, m: Memory, md: LongTermMetadata, back: LongTermMemory)
    requires
        m.id == l.id,
        m.session_id@ == longterm_prefix() + l.user_id@,
        m.content@ == l.content@,
        opt_bits(m.embedding_bits) == opt_bits(l.embedding_bits),
        m.created_at_millis == l.created_at_millis,
        md.kind matches Some(k) && k@ == "longterm"@,
        md.category matches Some(c) && c@ == category_name(l.category),
        md.importance == Some(importance_level(l.importance) as u64),
        md.confidence_permille == Some(l.confidence_permille),
        opt_text(md.source_session) == opt_text(l.source_session),
        md.related_memories matches Some(v) && v@.len() == l.related_memories@.len() && forall|i: int|
            0 <= i < v@.len() ==> uuid_of_text((#[trigger] v@[i])@) == Some(l.related_memories@[i]),
        md.tags matches Some(t) && string_views(t@) == string_views(l.tags@),
        four_digit_year(l.last_accessed_millis) ==> (md.last_accessed matches Some(t)
            && rfc3339_millis(t@) == Some(l.last_accessed_millis)),
        md.access_count == Some(l.access_count as u64),
        four_digit_year(l.last_accessed_millis),
        read_back(back, m, md),
    ensures
        holds_longterm(m, md),
        back.id == l.id,
        back.user_id@ == l.user_id@,
        back.content@ == l.content@,
        back.category == l.category,
        back.importance == l.importance,
        back.confidence_permille == l.confidence_permille,
        opt_text(back.source_session) == opt_text(l.source_session),
        back.related_memories@ == l.related_memories@,
        string_views(back.tags@) == string_views(l.tags@),
        back.created_at_millis == l.created_at_millis,
        back.last_accessed_millis == l.last_accessed_millis,
        back.access_count == l.access_count,
        opt_bits(back.embedding_bits) == opt_bits(l.embedding_bits),
{
    crate::memory::lemma_category_name_roundtrip(l.category);
    crate::memory::lemma_longterm_session_roundtrip(back.user_id@, l.user_id@);
    let v = md.related_memories->0;
    lemma_parsed_back(string_views(v@), l.related_memories@);
    assert(string_views(v@).len() == v@.len());
    assert forall|i: int| 0 <= i < string_views(v@).len() implies uuid_of_text(#[trigger] string_views(v@)[i]) == Some(l.related_memories@[i]) by {
        assert(string_views(v@)[i] == v@[i]@);
    }
    lemma_parsed_back(string_views(v@), l.related_memories@);
    assert(m.session_id@ == longterm_prefix() + l.user_id@);
    assert(exists|u: Seq<char>| m.session_id@ == longterm_prefix() + u);
}

} // verus!
