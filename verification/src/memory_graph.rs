//! A knowledge graph of memories: typed nodes and relationships with
//! temporal validity, snapshots of each node's history, and a bounded
//! breadth-first traversal.

use vstd::prelude::*;
use crate::ids::random_id_text;
use crate::json::json_clone;
use crate::clock::{elapsed_millis, utc_now_millis};
use crate::mediator::{entry_names, find_name, names_of, put_name, put_named};
use crate::oauth::{keyed, lemma_keyed};
use crate::multimap::{distinct_keys, has_key, key_index, lemma_key_index_unique};
use crate::text::{str_eq, string_push_str, to_owned_string};

verus! {

/// Errors of the memory graph.
#[derive(Debug, Clone, PartialEq, Eq)]
pub enum MemoryGraphError {
    NodeNotFound(String),
    EdgeNotFound(String),
    InvalidRelationship(String),
    CycleDetected,
    QueryFailed(String),
    ProviderError(String),
}

impl MemoryGraphError {
    /// The error's description.
    pub fn message(&self) -> (r: String)
        ensures
            r@ == match self {
                MemoryGraphError::NodeNotFound(s) => "Node not found: "@ + s@,
                MemoryGraphError::EdgeNotFound(s) => "Edge not found: "@ + s@,
                MemoryGraphError::InvalidRelationship(s) => "Invalid relationship: "@ + s@,
                MemoryGraphError::CycleDetected => "Cycle detected in graph"@,
                MemoryGraphError::QueryFailed(s) => "Query failed: "@ + s@,
                MemoryGraphError::ProviderError(s) => "Provider error: "@ + s@,
            },
    {
        let (prefix, detail): (&str, Option<&String>) = match self {
            MemoryGraphError::NodeNotFound(s) => ("Node not found: ", Some(s)),
            MemoryGraphError::EdgeNotFound(s) => ("Edge not found: ", Some(s)),
            MemoryGraphError::InvalidRelationship(s) => ("Invalid relationship: ", Some(s)),
            MemoryGraphError::CycleDetected => ("Cycle detected in graph", None),
            MemoryGraphError::QueryFailed(s) => ("Query failed: ", Some(s)),
            MemoryGraphError::ProviderError(s) => ("Provider error: ", Some(s)),
        };
        let mut out = to_owned_string(prefix);
        match detail {
            Some(s) => string_push_str(&mut out, s.as_str()),
            None => {},
        }
        out
    }
}

/// What a node stands for.
#[derive(Debug, Clone, PartialEq, Eq, Hash)]
pub enum NodeType {
    Concept,
    /// A person, place or thing.
    Entity,
    Event,
    Fact,
    Preference,
    Conversation,
    Task,
    Document,
    Custom(String),
}

/// `a` and `b` are the same type, a custom one by its name.
pub open spec fn node_type_eq(a: NodeType, b: NodeType) -> bool {
    match (a, b) {
        (NodeType::Custom(x), NodeType::Custom(y)) => x@ == y@,
        _ => a == b,
    }
}

impl NodeType {
    /// A copy.
    pub fn duplicate(&self) -> (r: Self)
        ensures
            r == *self,
    {
        match self {
            NodeType::Concept => NodeType::Concept,
            NodeType::Entity => NodeType::Entity,
            NodeType::Event => NodeType::Event,
            NodeType::Fact => NodeType::Fact,
            NodeType::Preference => NodeType::Preference,
            NodeType::Conversation => NodeType::Conversation,
            NodeType::Task => NodeType::Task,
            NodeType::Document => NodeType::Document,
            NodeType::Custom(s) => NodeType::Custom(s.clone()),
        }
    }

    /// Whether `self` and `other` are the same type.
    pub fn same_as(&self, other: &NodeType) -> (r: bool)
        ensures
            r == node_type_eq(*self, *other),
    {
        match (self, other) {
            (NodeType::Concept, NodeType::Concept) => true,
            (NodeType::Entity, NodeType::Entity) => true,
            (NodeType::Event, NodeType::Event) => true,
            (NodeType::Fact, NodeType::Fact) => true,
            (NodeType::Preference, NodeType::Preference) => true,
            (NodeType::Conversation, NodeType::Conversation) => true,
            (NodeType::Task, NodeType::Task) => true,
            (NodeType::Document, NodeType::Document) => true,
            (NodeType::Custom(a), NodeType::Custom(b)) => str_eq(a.as_str(), b.as_str()),
            _ => false,
        }
    }
}

/// How two nodes are related.
#[derive(Debug, Clone, PartialEq, Eq, Hash)]
pub enum RelationshipType {
    IsA,
    PartOf,
    RelatedTo,
    CausedBy,
    Causes,
    PrecededBy,
    Follows,
    CreatedBy,
    MentionedIn,
    Contradicts,
    Supports,
    SameAs,
    Custom(String),
}

/// `a` and `b` are the same relationship, a custom one by its name.
pub open spec fn relationship_eq(a: RelationshipType, b: RelationshipType) -> bool {
    match (a, b) {
        (RelationshipType::Custom(x), RelationshipType::Custom(y)) => x@ == y@,
        _ => a == b,
    }
}

impl RelationshipType {
    /// A copy.
    pub fn duplicate(&self) -> (r: Self)
        ensures
            r == *self,
    {
        match self {
            RelationshipType::IsA => RelationshipType::IsA,
            RelationshipType::PartOf => RelationshipType::PartOf,
            RelationshipType::RelatedTo => RelationshipType::RelatedTo,
            RelationshipType::CausedBy => RelationshipType::CausedBy,
            RelationshipType::Causes => RelationshipType::Causes,
            RelationshipType::PrecededBy => RelationshipType::PrecededBy,
            RelationshipType::Follows => RelationshipType::Follows,
            RelationshipType::CreatedBy => RelationshipType::CreatedBy,
            RelationshipType::MentionedIn => RelationshipType::MentionedIn,
            RelationshipType::Contradicts => RelationshipType::Contradicts,
            RelationshipType::Supports => RelationshipType::Supports,
            RelationshipType::SameAs => RelationshipType::SameAs,
            RelationshipType::Custom(s) => RelationshipType::Custom(s.clone()),
        }
    }

    /// Whether `self` and `other` are the same relationship.
    pub fn same_as(&self, other: &RelationshipType) -> (r: bool)
        ensures
            r == relationship_eq(*self, *other),
    {
        match (self, other) {
            (RelationshipType::IsA, RelationshipType::IsA) => true,
            (RelationshipType::PartOf, RelationshipType::PartOf) => true,
            (RelationshipType::RelatedTo, RelationshipType::RelatedTo) => true,
            (RelationshipType::CausedBy, RelationshipType::CausedBy) => true,
            (RelationshipType::Causes, RelationshipType::Causes) => true,
            (RelationshipType::PrecededBy, RelationshipType::PrecededBy) => true,
            (RelationshipType::Follows, RelationshipType::Follows) => true,
            (RelationshipType::CreatedBy, RelationshipType::CreatedBy) => true,
            (RelationshipType::MentionedIn, RelationshipType::MentionedIn) => true,
            (RelationshipType::Contradicts, RelationshipType::Contradicts) => true,
            (RelationshipType::Supports, RelationshipType::Supports) => true,
            (RelationshipType::SameAs, RelationshipType::SameAs) => true,
            (RelationshipType::Custom(a), RelationshipType::Custom(b)) => str_eq(a.as_str(), b.as_str()),
            _ => false,
        }
    }
}

/// When something holds.
#[derive(Debug, Clone, Copy, PartialEq, Eq)]
pub struct TemporalValidity {
    /// In milliseconds since the Unix epoch.
    pub valid_from_millis: Option<i64>,
    /// In milliseconds since the Unix epoch.
    pub valid_until_millis: Option<i64>,
    pub is_current: bool,
    /// Confidence that it still holds, in thousandths.
    pub freshness_permille: u32,
}

impl TemporalValidity {
    /// Valid from `now_millis` on, current, fully fresh.
    pub fn starting_at(now_millis: i64) -> (r: Self)
        ensures
            r.valid_from_millis == Some(now_millis),
            r.valid_until_millis is None,
            r.is_current,
            r.freshness_permille == 1000,
    {
        TemporalValidity {
            valid_from_millis: Some(now_millis),
            valid_until_millis: None,
            is_current: true,
            freshness_permille: 1000,
        }
    }
}

impl Default for TemporalValidity {
    /// Valid from now on.
    fn default() -> (r: Self)
        ensures
            r.valid_from_millis is Some,
            r.valid_until_millis is None,
            r.is_current,
            r.freshness_permille == 1000,
    {
        TemporalValidity::starting_at(utc_now_millis())
    }
}

/// `!=` on JSON values. Values that are the same are never different; no
/// more is stated (JSON numbers compare by value, so distinct values may
/// compare equal).
#[verifier::external_body]
fn json_differs(a: &serde_json::Value, b: &serde_json::Value) -> (r: bool)
    ensures
        *a == *b ==> !r,
{
    a != b
}

pub(crate) fn copy_properties(ps: &Vec<(String, serde_json::Value)>) -> (r: Vec<(String, serde_json::Value)>)
    ensures
        r@ == ps@,
{
    let mut out: Vec<(String, serde_json::Value)> = Vec::new();
    let mut i: usize = 0;
    while i < ps.len()
        invariant
            i <= ps@.len(),
            out@ == ps@.take(i as int),
        decreases ps@.len() - i,
    {
        out.push((ps[i].0.clone(), json_clone(&ps[i].1)));
        assert(ps@.take(i as int + 1) =~= ps@.take(i as int).push(ps@[i as int]));
        i = i + 1;
    }
    assert(ps@.take(i as int) =~= ps@);
    out
}

/// Properties by key view.
pub open spec fn property_views(ps: Seq<(String, serde_json::Value)>) -> Seq<(Seq<char>, serde_json::Value)> {
    ps.map_values(|p: (String, serde_json::Value)| (p.0@, p.1))
}

/// The properties after setting `k` to `v`: a known key keeps its place, a
/// new one goes last.
pub open spec fn put_property(ps: Seq<(Seq<char>, serde_json::Value)>, k: Seq<char>, v: serde_json::Value) -> Seq<(Seq<char>, serde_json::Value)> {
    if has_key(ps, k) {
        ps.update(key_index(ps, k), (k, v))
    } else {
        ps.push((k, v))
    }
}

fn set_property(ps: &mut Vec<(String, serde_json::Value)>, key: String, value: serde_json::Value)
    requires
        distinct_keys(property_views(old(ps)@)),
    ensures
        distinct_keys(property_views(final(ps)@)),
        property_views(final(ps)@) == put_property(property_views(old(ps)@), key@, value),
{
    let ghost vs = property_views(ps@);
    let mut i: usize = 0;
    while i < ps.len()
        invariant
            vs == property_views(ps@),
            vs == property_views(old(ps)@),
            i <= ps@.len(),
            forall|j: int| 0 <= j < i ==> (#[trigger] vs[j]).0 != key@,
            distinct_keys(vs),
        decreases ps@.len() - i,
    {
        assert(vs[i as int] == (ps@[i as int].0@, ps@[i as int].1));
        if str_eq(ps[i].0.as_str(), key.as_str()) {
            proof {
                lemma_key_index_unique(vs, i as int);
            }
            let ghost k = key@;
            let ghost v = value;
            ps.set(i, (key, value));
            proof {
                let t = vs.update(i as int, (k, v));
                assert(property_views(ps@) =~= t);
                assert forall|a: int, b: int| 0 <= a < t.len() && 0 <= b < t.len() && a != b implies t[a].0 != t[b].0 by {
                    if a != i && b != i {
                        assert(t[a] == vs[a] && t[b] == vs[b]);
                    } else if a == i {
                        assert(t[b] == vs[b]);
                    } else {
                        assert(t[a] == vs[a]);
                    }
                }
            }
            return;
        }
        i = i + 1;
    }
    let ghost k = key@;
    let ghost v = value;
    ps.push((key, value));
    proof {
        let t = vs.push((k, v));
        assert(property_views(ps@) =~= t);
        assert forall|a: int, b: int| 0 <= a < t.len() && 0 <= b < t.len() && a != b implies t[a].0 != t[b].0 by {
            if a < vs.len() {
                assert(t[a] == vs[a]);
            }
            if b < vs.len() {
                assert(t[b] == vs[b]);
            }
        }
    }
}

/// A node of the graph.
#[derive(Debug)]
pub struct Node {
    pub id: String,
    pub node_type: NodeType,
    /// A readable name.
    pub label: String,
    /// No key twice.
    pub properties: Vec<(String, serde_json::Value)>,
    pub temporal: TemporalValidity,
    /// Weight, in thousandths.
    pub importance_permille: u32,
    pub access_count: u32,
    /// In milliseconds since the Unix epoch.
    pub last_accessed_millis: i64,
    /// In milliseconds since the Unix epoch.
    pub created_at_millis: i64,
}

/// `a` and `b` hold the same node.
pub open spec fn same_node(a: Node, b: Node) -> bool {
    &&& a.id@ == b.id@
    &&& a.node_type == b.node_type
    &&& a.label@ == b.label@
    &&& a.properties@ == b.properties@
    &&& a.temporal == b.temporal
    &&& a.importance_permille == b.importance_permille
    &&& a.access_count == b.access_count
    &&& a.last_accessed_millis == b.last_accessed_millis
    &&& a.created_at_millis == b.created_at_millis
}

impl Node {
    /// A copy.
    pub fn duplicate(&self) -> (r: Self)
        ensures
            same_node(r, *self),
    {
        Node {
            id: self.id.clone(),
            node_type: self.node_type.duplicate(),
            label: self.label.clone(),
            properties: copy_properties(&self.properties),
            temporal: self.temporal,
            importance_permille: self.importance_permille,
            access_count: self.access_count,
            last_accessed_millis: self.last_accessed_millis,
            created_at_millis: self.created_at_millis,
        }
    }
}

/// A relationship between two nodes.
#[derive(Debug)]
pub struct Edge {
    pub id: String,
    /// The source node.
    pub from: String,
    /// The target node.
    pub to: String,
    pub relationship: RelationshipType,
    /// Strength, in thousandths.
    pub weight_permille: u32,
    pub properties: Vec<(String, serde_json::Value)>,
    pub temporal: TemporalValidity,
    /// In milliseconds since the Unix epoch.
    pub created_at_millis: i64,
}

/// `a` and `b` hold the same edge.
pub open spec fn same_edge(a: Edge, b: Edge) -> bool {
    &&& a.id@ == b.id@
    &&& a.from@ == b.from@
    &&& a.to@ == b.to@
    &&& a.relationship == b.relationship
    &&& a.weight_permille == b.weight_permille
    &&& a.properties@ == b.properties@
    &&& a.temporal == b.temporal
    &&& a.created_at_millis == b.created_at_millis
}

impl Edge {
    /// A copy.
    pub fn duplicate(&self) -> (r: Self)
        ensures
            same_edge(r, *self),
    {
        Edge {
            id: self.id.clone(),
            from: self.from.clone(),
            to: self.to.clone(),
            relationship: self.relationship.duplicate(),
            weight_permille: self.weight_permille,
            properties: copy_properties(&self.properties),
            temporal: self.temporal,
            created_at_millis: self.created_at_millis,
        }
    }
}

/// Builds a node.
pub struct NodeBuilder {
    node: Node,
}

impl NodeBuilder {
    /// The node built so far.
    pub closed spec fn node_view(&self) -> Node {
        self.node
    }

    /// A node labelled `label` of `node_type`, with a fresh identifier,
    /// no property, importance one half, current from now on.
    pub fn new(label: &str, node_type: NodeType) -> (r: Self)
        ensures
            r.node_view().id@.len() == 36,
            r.node_view().label@ == label@,
            r.node_view().node_type == node_type,
            r.node_view().properties@.len() == 0,
            r.node_view().importance_permille == 500,
            r.node_view().access_count == 0,
            r.node_view().temporal.is_current,
    {
        let now = utc_now_millis();
        NodeBuilder {
            node: Node {
                id: random_id_text(),
                node_type,
                label: to_owned_string(label),
                properties: Vec::new(),
                temporal: TemporalValidity::starting_at(now),
                importance_permille: 500,
                access_count: 0,
                last_accessed_millis: now,
                created_at_millis: now,
            },
        }
    }

    /// Set property `key` to `value`.
    pub fn property(self, key: &str, value: serde_json::Value) -> (r: Self)
        requires
            distinct_keys(property_views(self.node_view().properties@)),
        ensures
            distinct_keys(property_views(r.node_view().properties@)),
            property_views(r.node_view().properties@) == put_property(
                property_views(self.node_view().properties@),
                key@,
                value,
            ),
            r.node_view().id == self.node_view().id,
            r.node_view().label == self.node_view().label,
            r.node_view().importance_permille == self.node_view().importance_permille,
    {
        let mut b = self;
        set_property(&mut b.node.properties, to_owned_string(key), value);
        b
    }

    /// Set the importance, in thousandths.
    pub fn importance(self, importance_permille: u32) -> (r: Self)
        ensures
            r.node_view().importance_permille == importance_permille,
            r.node_view().id == self.node_view().id,
            r.node_view().label == self.node_view().label,
            r.node_view().properties == self.node_view().properties,
    {
        let mut b = self;
        b.node.importance_permille = importance_permille;
        b
    }

    /// The node.
    pub fn build(self) -> (r: Node)
        ensures
            r == self.node_view(),
    {
        self.node
    }
}

/// Builds an edge.
pub struct EdgeBuilder {
    edge: Edge,
}

impl EdgeBuilder {
    /// The edge built so far.
    pub closed spec fn edge_view(&self) -> Edge {
        self.edge
    }

    /// An edge from `from` to `to`, with a fresh identifier and full
    /// weight.
    pub fn new(from: &str, to: &str, relationship: RelationshipType) -> (r: Self)
        ensures
            r.edge_view().id@.len() == 36,
            r.edge_view().from@ == from@,
            r.edge_view().to@ == to@,
            r.edge_view().relationship == relationship,
            r.edge_view().weight_permille == 1000,
            r.edge_view().properties@.len() == 0,
    {
        let now = utc_now_millis();
        EdgeBuilder {
            edge: Edge {
                id: random_id_text(),
                from: to_owned_string(from),
                to: to_owned_string(to),
                relationship,
                weight_permille: 1000,
                properties: Vec::new(),
                temporal: TemporalValidity::starting_at(now),
                created_at_millis: now,
            },
        }
    }

    /// Set the weight, in thousandths.
    pub fn weight(self, weight_permille: u32) -> (r: Self)
        ensures
            r.edge_view().weight_permille == weight_permille,
            r.edge_view().id == self.edge_view().id,
            r.edge_view().from == self.edge_view().from,
            r.edge_view().to == self.edge_view().to,
            r.edge_view().relationship == self.edge_view().relationship,
    {
        let mut b = self;
        b.edge.weight_permille = weight_permille;
        b
    }

    /// The edge.
    pub fn build(self) -> (r: Edge)
        ensures
            r == self.edge_view(),
    {
        self.edge
    }
}


/// A node as it was at a time.
#[derive(Debug)]
pub struct TemporalSnapshot {
    pub node: Node,
    /// In milliseconds since the Unix epoch.
    pub timestamp_millis: i64,
}

/// A property that changed between two snapshots.
#[derive(Debug)]
pub struct TemporalChange {
    pub property: String,
    pub old_value: serde_json::Value,
    pub new_value: serde_json::Value,
    /// In milliseconds since the Unix epoch.
    pub changed_at_millis: i64,
    pub reason: Option<String>,
}

/// A question about a node at a time.
#[derive(Debug, Clone)]
pub struct TemporalQuery {
    /// In milliseconds since the Unix epoch.
    pub at_time_millis: i64,
    pub node_id: Option<String>,
    pub semantic: Option<String>,
    pub include_history: bool,
}

/// The answer to a temporal query.
#[derive(Debug)]
pub struct TemporalResult {
    /// The node as it was at the time asked.
    pub current: Option<Node>,
    /// Every snapshot, where asked for.
    pub history: Vec<TemporalSnapshot>,
    /// The property changes between consecutive snapshots.
    pub changes: Vec<TemporalChange>,
}

/// Where a traversal starts.
#[derive(Debug, Clone)]
pub enum QueryStart {
    NodeIds(Vec<String>),
    /// The nodes most similar to `query`; this needs an embedding provider.
    Semantic { query: String, top_k: u32 },
    ByType(NodeType),
    All,
}

/// A traversal of the graph.
#[derive(Debug, Clone)]
pub struct GraphQuery {
    pub start: QueryStart,
    /// Relationships followed; none for all.
    pub relationships: Vec<RelationshipType>,
    pub max_depth: u32,
    /// Node types kept, if restricted.
    pub node_types: Option<Vec<NodeType>>,
    /// Least importance kept, in thousandths.
    pub min_importance_permille: Option<u32>,
    /// Keep only current nodes.
    pub temporal_filter: bool,
    /// Most nodes returned.
    pub limit: u32,
}

/// What a traversal found.
#[derive(Debug)]
pub struct QueryResult {
    pub nodes: Vec<Node>,
    pub edges: Vec<Edge>,
    /// For each node, the identifiers on the way to it.
    pub paths: Vec<Vec<String>>,
    pub execution_time_ms: u64,
}

/// The strings of `list` by view.
pub open spec fn str_views(list: Seq<String>) -> Seq<Seq<char>> {
    list.map_values(|s: String| s@)
}

fn contains_str(list: &Vec<String>, s: &str) -> (r: bool)
    ensures
        r == str_views(list@).contains(s@),
{
    let mut i: usize = 0;
    while i < list.len()
        invariant
            i <= list@.len(),
            forall|j: int| 0 <= j < i ==> (#[trigger] list@[j])@ != s@,
        decreases list@.len() - i,
    {
        if str_eq(list[i].as_str(), s) {
            assert(str_views(list@)[i as int] == s@);
            return true;
        }
        i = i + 1;
    }
    proof {
        if str_views(list@).contains(s@) {
            let j = choose|j: int| 0 <= j < str_views(list@).len() && str_views(list@)[j] == s@;
            assert(list@[j]@ == s@);
        }
    }
    false
}

/// The list under `key`, by view, or nothing.
pub open spec fn list_of(lists: Seq<(Seq<char>, Vec<String>)>, key: Seq<char>) -> Seq<Seq<char>> {
    if has_key(lists, key) {
        str_views(lists[key_index(lists, key)].1@)
    } else {
        Seq::empty()
    }
}

/// How many of `keys` are not in `visited`.
pub open spec fn unvisited(keys: Seq<(Seq<char>, ())>, visited: Seq<Seq<char>>) -> nat
    decreases keys.len(),
{
    if keys.len() == 0 {
        0
    } else {
        unvisited(keys.drop_last(), visited) + if visited.contains(keys.last().0) {
            0nat
        } else {
            1nat
        }
    }
}

proof fn lemma_unvisited_shrinks(keys: Seq<(Seq<char>, ())>, visited: Seq<Seq<char>>, x: Seq<char>)
    ensures
        unvisited(keys, visited.push(x)) <= unvisited(keys, visited),
        has_key(keys, x) && !visited.contains(x) ==> unvisited(keys, visited.push(x)) < unvisited(keys, visited),
    decreases keys.len(),
{
    if keys.len() > 0 {
        lemma_unvisited_shrinks(keys.drop_last(), visited, x);
        let k = keys.last().0;
        if visited.contains(k) {
            let j = choose|j: int| 0 <= j < visited.len() && visited[j] == k;
            assert(visited.push(x)[j] == k);
        }
        if k == x {
            assert(visited.push(x)[visited.len() as int] == x);
        }
        if visited.push(x).contains(k) && k != x {
            let j = choose|j: int| 0 <= j < visited.push(x).len() && visited.push(x)[j] == k;
            assert(visited[j] == k);
        }
        if has_key(keys, x) && !visited.contains(x) && k != x {
            let i = choose|i: int| 0 <= i < keys.len() && keys[i].0 == x;
            assert(keys.drop_last()[i].0 == x);
        }
    }
}

/// Whether node `n` passes the filters of a traversal.
pub open spec fn passes(n: Node, node_types: Option<Vec<NodeType>>, min_importance: Option<u32>, temporal: bool) -> bool {
    &&& match node_types {
        Some(ts) => exists|i: int| 0 <= i < ts@.len() && node_type_eq(#[trigger] ts@[i], n.node_type),
        None => true,
    }
    &&& match min_importance {
        Some(m) => n.importance_permille >= m,
        None => true,
    }
    &&& (temporal ==> n.temporal.is_current)
}

/// A node that passes the filters has the type asked for (any, with none
/// asked), an importance of at least the minimum asked for, and, where only
/// current nodes are asked for, is current.
pub proof fn lemma_passing_node_meets_filters(n: Node, node_types: Option<Vec<NodeType>>, min_importance: Option<u32>, temporal: bool)
    requires
        passes(n, node_types, min_importance, temporal),
    ensures
        min_importance matches Some(m) ==> n.importance_permille >= m,
        node_types matches Some(ts) ==> exists|i: int| 0 <= i < ts@.len() && node_type_eq(#[trigger] ts@[i], n.node_type),
        temporal ==> n.temporal.is_current,
{
}

/// Some node of `rs` has identifier `id`.
pub open spec fn found_in(rs: Seq<Node>, id: Seq<char>) -> bool {
    exists|i: int| 0 <= i < rs.len() && (#[trigger] rs[i]).id@ == id
}

/// Whether a relationship is followed: every one when none is named.
pub open spec fn followed(rels: Seq<RelationshipType>, r: RelationshipType) -> bool {
    rels.len() == 0 || exists|i: int| 0 <= i < rels.len() && relationship_eq(#[trigger] rels[i], r)
}

fn type_listed(ts: &Vec<NodeType>, t: &NodeType) -> (r: bool)
    ensures
        r == exists|i: int| 0 <= i < ts@.len() && node_type_eq(#[trigger] ts@[i], *t),
{
    let mut i: usize = 0;
    while i < ts.len()
        invariant
            i <= ts@.len(),
            forall|j: int| 0 <= j < i ==> !node_type_eq(#[trigger] ts@[j], *t),
        decreases ts@.len() - i,
    {
        if ts[i].same_as(t) {
            return true;
        }
        i = i + 1;
    }
    false
}

fn relationship_followed(rels: &Vec<RelationshipType>, r: &RelationshipType) -> (b: bool)
    ensures
        b == followed(rels@, *r),
{
    if rels.len() == 0 {
        return true;
    }
    let mut i: usize = 0;
    while i < rels.len()
        invariant
            i <= rels@.len(),
            rels@.len() > 0,
            forall|j: int| 0 <= j < i ==> !relationship_eq(#[trigger] rels@[j], *r),
        decreases rels@.len() - i,
    {
        if rels[i].same_as(r) {
            return true;
        }
        i = i + 1;
    }
    false
}

/// The items under `key`, or nothing.
pub open spec fn items_of<T>(lists: Seq<(String, Vec<T>)>, key: Seq<char>) -> Seq<T> {
    if has_key(entry_names(lists), key) {
        lists[key_index(entry_names(lists), key)].1@
    } else {
        Seq::empty()
    }
}

/// Entries other than `key`'s, and which keys are present, agree.
pub open spec fn others_kept<T>(a: Seq<(String, Vec<T>)>, b: Seq<(String, Vec<T>)>, key: Seq<char>) -> bool {
    &&& forall|k: Seq<char>| k != key ==> #[trigger] items_of(b, k) == items_of(a, k)
    &&& forall|k: Seq<char>| k != key ==> #[trigger] has_key(entry_names(b), k) == has_key(entry_names(a), k)
}

proof fn lemma_same_names_same_index<T>(a: Seq<(String, Vec<T>)>, b: Seq<(String, Vec<T>)>, i: int, k: Seq<char>)
    requires
        entry_names(a) == entry_names(b),
        distinct_keys(entry_names(a)),
        0 <= i < a.len(),
        forall|j: int| 0 <= j < a.len() && j != i ==> a[j] == b[j],
        k != a[i].0@,
    ensures
        items_of(b, k) == items_of(a, k),
{
    if has_key(entry_names(a), k) {
        let j = key_index(entry_names(a), k);
        assert(entry_names(a)[j].0 == k);
        assert(j != i);
    }
}

fn append_entry<T>(lists: &mut Vec<(String, Vec<T>)>, key: &str, item: T)
    requires
        distinct_keys(entry_names(old(lists)@)),
    ensures
        distinct_keys(entry_names(final(lists)@)),
        has_key(entry_names(final(lists)@), key@),
        items_of(final(lists)@, key@) == items_of(old(lists)@, key@).push(item),
        others_kept(old(lists)@, final(lists)@, key@),
{
    let ghost before = lists@;
    let ghost ns = entry_names(before);
    match find_name(lists, key) {
        Some(i) => {
            let (name, mut items) = lists.remove(i);
            let ghost old_items = items@;
            items.push(item);
            lists.insert(i, (name, items));
            proof {
                assert(entry_names(lists@) =~= ns);
                lemma_key_index_unique(ns, i as int);
                assert forall|k: Seq<char>| k != key@ implies #[trigger] items_of(lists@, k) == items_of(before, k) by {
                    lemma_same_names_same_index(before, lists@, i as int, k);
                }
                assert(others_kept(before, lists@, key@));
            }
        },
        None => {
            let mut items: Vec<T> = Vec::new();
            items.push(item);
            lists.push((to_owned_string(key), items));
            proof {
                let t = entry_names(lists@);
                assert(t =~= ns.push((key@, ())));
                assert forall|a: int, b: int| 0 <= a < t.len() && 0 <= b < t.len() && a != b implies t[a].0 != t[b].0 by {
                    if a < ns.len() {
                        assert(t[a] == ns[a]);
                    }
                    if b < ns.len() {
                        assert(t[b] == ns[b]);
                    }
                }
                lemma_key_index_unique(t, ns.len() as int);
                assert(lists@[ns.len() as int].1@ =~= seq![item]);
                assert forall|k: Seq<char>| k != key@ implies #[trigger] has_key(entry_names(lists@), k) == has_key(ns, k) by {
                    if has_key(ns, k) {
                        let j = key_index(ns, k);
                        assert(t[j] == ns[j]);
                    }
                    if has_key(t, k) {
                        let j = choose|j: int| 0 <= j < t.len() && t[j].0 == k;
                        if j < ns.len() {
                            assert(t[j] == ns[j]);
                        }
                    }
                }
                assert forall|k: Seq<char>| k != key@ implies #[trigger] items_of(lists@, k) == items_of(before, k) by {
                    if has_key(ns, k) {
                        let j = key_index(ns, k);
                        assert(t[j] == ns[j]);
                        lemma_key_index_unique(t, j);
                        assert(lists@[j] == before[j]);
                    }
                    if has_key(t, k) {
                        let j = choose|j: int| 0 <= j < t.len() && t[j].0 == k;
                        if j < ns.len() {
                            assert(t[j] == ns[j]);
                        }
                    }
                }
            }
        },
    }
}

fn ensure_entry<T>(lists: &mut Vec<(String, Vec<T>)>, key: &str)
    requires
        distinct_keys(entry_names(old(lists)@)),
    ensures
        distinct_keys(entry_names(final(lists)@)),
        has_key(entry_names(final(lists)@), key@),
        items_of(final(lists)@, key@) == items_of(old(lists)@, key@),
        others_kept(old(lists)@, final(lists)@, key@),
{
    let ghost before = lists@;
    let ghost ns = entry_names(before);
    match find_name(lists, key) {
        Some(i) => {
            assert(others_kept(before, lists@, key@));
        },
        None => {
            let items: Vec<T> = Vec::new();
            lists.push((to_owned_string(key), items));
            proof {
                let t = entry_names(lists@);
                assert(t =~= ns.push((key@, ())));
                assert forall|a: int, b: int| 0 <= a < t.len() && 0 <= b < t.len() && a != b implies t[a].0 != t[b].0 by {
                    if a < ns.len() {
                        assert(t[a] == ns[a]);
                    }
                    if b < ns.len() {
                        assert(t[b] == ns[b]);
                    }
                }
                lemma_key_index_unique(t, ns.len() as int);
                assert(lists@[ns.len() as int].1@ =~= Seq::<T>::empty());
                assert forall|k: Seq<char>| k != key@ implies #[trigger] has_key(entry_names(lists@), k) == has_key(ns, k) by {
                    if has_key(ns, k) {
                        let j = key_index(ns, k);
                        assert(t[j] == ns[j]);
                    }
                    if has_key(t, k) {
                        let j = choose|j: int| 0 <= j < t.len() && t[j].0 == k;
                        if j < ns.len() {
                            assert(t[j] == ns[j]);
                        }
                    }
                }
                assert forall|k: Seq<char>| k != key@ implies #[trigger] items_of(lists@, k) == items_of(before, k) by {
                    if has_key(ns, k) {
                        let j = key_index(ns, k);
                        assert(t[j] == ns[j]);
                        lemma_key_index_unique(t, j);
                        assert(lists@[j] == before[j]);
                    }
                    if has_key(t, k) {
                        let j = choose|j: int| 0 <= j < t.len() && t[j].0 == k;
                        if j < ns.len() {
                            assert(t[j] == ns[j]);
                        }
                    }
                }
            }
        },
    }
}

/// The value under `k`, if any.
pub open spec fn value_of<A>(s: Seq<(String, A)>, k: Seq<char>) -> Option<A> {
    if has_key(entry_names(s), k) {
        Some(s[key_index(entry_names(s), k)].1)
    } else {
        None
    }
}

pub(crate) proof fn lemma_put_others<A>(before: Seq<(String, A)>, after: Seq<(String, A)>, name: Seq<char>)
    requires
        distinct_keys(entry_names(before)),
        distinct_keys(entry_names(after)),
        names_of(after) == put_name(names_of(before), name),
        forall|j: int| 0 <= j < before.len() && before[j].0@ != name ==> after[j] == before[j],
    ensures
        forall|k: Seq<char>| k != name ==> #[trigger] value_of(after, k) == value_of(before, k),
{
    assert(names_of(after).len() == after.len());
    assert(names_of(before).len() == before.len());
    assert forall|k: Seq<char>| k != name implies #[trigger] value_of(after, k) == value_of(before, k) by {
        if has_key(entry_names(before), k) {
            let j = key_index(entry_names(before), k);
            assert(entry_names(before)[j].0 == k);
            assert(before[j].0@ == k);
            assert(after[j] == before[j]);
            assert(entry_names(after)[j].0 == k);
            lemma_key_index_unique(entry_names(after), j);
        }
        if has_key(entry_names(after), k) {
            let j = choose|j: int| 0 <= j < entry_names(after).len() && entry_names(after)[j].0 == k;
            assert(names_of(after)[j] == k);
            if names_of(before).contains(name) {
                assert(names_of(before)[j] == k);
                assert(entry_names(before)[j].0 == k);
            } else {
                if j < before.len() {
                    assert(names_of(before)[j] == k);
                    assert(entry_names(before)[j].0 == k);
                }
            }
        }
    }
}

/// The properties after setting each update in turn.
pub open spec fn apply_properties(
    ps: Seq<(Seq<char>, serde_json::Value)>,
    updates: Seq<(String, serde_json::Value)>,
) -> Seq<(Seq<char>, serde_json::Value)>
    decreases updates.len(),
{
    if updates.len() == 0 {
        ps
    } else {
        put_property(apply_properties(ps, updates.drop_last()), updates.last().0@, updates.last().1)
    }
}

/// The index of the snapshot current at `t`: the latest taken no later
/// than `t`, the last of equally late ones.
pub open spec fn current_index(h: Seq<TemporalSnapshot>, t: i64) -> Option<int>
    decreases h.len(),
{
    if h.len() == 0 {
        None
    } else {
        let prev = current_index(h.drop_last(), t);
        if h.last().timestamp_millis <= t && match prev {
            Some(p) => h[p].timestamp_millis <= h.last().timestamp_millis,
            None => true,
        } {
            Some(h.len() - 1)
        } else {
            prev
        }
    }
}

proof fn lemma_current_index_bounds(h: Seq<TemporalSnapshot>, t: i64)
    ensures
        current_index(h, t) matches Some(i) ==> 0 <= i < h.len() && h[i].timestamp_millis <= t,
    decreases h.len(),
{
    if h.len() > 0 {
        lemma_current_index_bounds(h.drop_last(), t);
    }
}

pub(crate) fn copy_strings(v: &Vec<String>) -> (r: Vec<String>)
    ensures
        r@ == v@,
{
    let mut out: Vec<String> = Vec::new();
    let mut i: usize = 0;
    while i < v.len()
        invariant
            i <= v@.len(),
            out@ == v@.take(i as int),
        decreases v@.len() - i,
    {
        out.push(v[i].clone());
        assert(v@.take(i as int + 1) =~= v@.take(i as int).push(v@[i as int]));
        i = i + 1;
    }
    assert(v@.take(i as int) =~= v@);
    out
}

/// The keys of `nodes` whose node is of type `t` (all with none), in order.
pub open spec fn ids_where(nodes: Seq<(String, Node)>, t: Option<NodeType>) -> Seq<Seq<char>>
    decreases nodes.len(),
{
    if nodes.len() == 0 {
        Seq::empty()
    } else {
        let rest = ids_where(nodes.drop_last(), t);
        let take = match t {
            Some(x) => node_type_eq(nodes.last().1.node_type, x),
            None => true,
        };
        if take {
            rest.push(nodes.last().0@)
        } else {
            rest
        }
    }
}

/// `c` was found at the time of a snapshot after the first.
pub open spec fn stamped(c: TemporalChange, h: Seq<TemporalSnapshot>) -> bool {
    exists|j: int| 1 <= j < h.len() && c.changed_at_millis == h[j].timestamp_millis
}

/// The position of the first property of `ps` with key `k`.
pub open spec fn first_prop(ps: Seq<(Seq<char>, serde_json::Value)>, k: Seq<char>) -> Option<int>
    decreases ps.len(),
{
    if ps.len() == 0 {
        None
    } else {
        match first_prop(ps.drop_last(), k) {
            Some(i) => Some(i),
            None => if ps.last().0 == k { Some(ps.len() - 1) } else { None },
        }
    }
}

proof fn lemma_first_prop(ps: Seq<(Seq<char>, serde_json::Value)>, k: Seq<char>)
    ensures
        match first_prop(ps, k) {
            Some(i) => 0 <= i < ps.len() && ps[i].0 == k && forall|j: int| 0 <= j < i ==> (#[trigger] ps[j]).0 != k,
            None => forall|j: int| 0 <= j < ps.len() ==> (#[trigger] ps[j]).0 != k,
        },
    decreases ps.len(),
{
    if ps.len() > 0 {
        let t = ps.drop_last();
        lemma_first_prop(t, k);
        assert forall|j: int| 0 <= j < t.len() implies #[trigger] t[j] == ps[j] by {}
        match first_prop(t, k) {
            Some(i) => {
                assert(t[i] == ps[i]);
                assert forall|j: int| 0 <= j < i implies (#[trigger] ps[j]).0 != k by {
                    assert(t[j] == ps[j]);
                }
            },
            None => {
                assert forall|j: int| 0 <= j < ps.len() - 1 implies (#[trigger] ps[j]).0 != k by {
                    assert(t[j] == ps[j]);
                }
            },
        }
    }
}

/// A change as its property, old value, new value and instant.
pub type ChangeView = (Seq<char>, serde_json::Value, serde_json::Value, i64);

/// The changes seen at `t` among the first `p` properties of the later
/// properties `new_ps`, in order: each whose key the earlier properties
/// `old_ps` have, first with a value that is not the same.
pub open spec fn step_changes(old_ps: Seq<(Seq<char>, serde_json::Value)>, new_ps: Seq<(Seq<char>, serde_json::Value)>, t: i64, p: int) -> Seq<ChangeView>
    decreases p,
{
    if p <= 0 {
        Seq::empty()
    } else {
        let prev = step_changes(old_ps, new_ps, t, p - 1);
        let k = new_ps[p - 1].0;
        let nv = new_ps[p - 1].1;
        match first_prop(old_ps, k) {
            Some(f) => if old_ps[f].1 != nv { prev.push((k, old_ps[f].1, nv, t)) } else { prev },
            None => prev,
        }
    }
}

/// The candidate changes between consecutive snapshots of `h`, for the
/// pairs ending before position `w`.
pub open spec fn history_changes(h: Seq<TemporalSnapshot>, w: int) -> Seq<ChangeView>
    decreases w,
{
    if w <= 1 {
        Seq::empty()
    } else {
        history_changes(h, w - 1) + step_changes(
            property_views(h[w - 2].node.properties@),
            property_views(h[w - 1].node.properties@),
            h[w - 1].timestamp_millis,
            h[w - 1].node.properties@.len() as int,
        )
    }
}

/// The candidate changes between all consecutive snapshots of `h`.
pub open spec fn all_changes(h: Seq<TemporalSnapshot>) -> Seq<ChangeView> {
    history_changes(h, if h.len() < 1 { 1 } else { h.len() as int })
}

/// The candidates of `cands` that `keep` marks, in order.
pub open spec fn picked<A>(cands: Seq<A>, keep: Seq<bool>) -> Seq<A>
    decreases cands.len(),
{
    if cands.len() == 0 {
        Seq::empty()
    } else if keep.last() {
        picked(cands.drop_last(), keep.drop_last()).push(cands.last())
    } else {
        picked(cands.drop_last(), keep.drop_last())
    }
}

/// The changes as views.
pub open spec fn change_views(cs: Seq<TemporalChange>) -> Seq<ChangeView> {
    cs.map_values(|c: TemporalChange| (c.property@, c.old_value, c.new_value, c.changed_at_millis))
}

/// `stamped` for each of the candidates.
proof fn lemma_history_stamped(h: Seq<TemporalSnapshot>, w: int, i: int)
    requires
        w <= h.len(),
        0 <= i < history_changes(h, w).len(),
    ensures
        exists|j: int| 1 <= j < h.len() && history_changes(h, w)[i].3 == h[j].timestamp_millis,
    decreases w,
{
    if w > 1 {
        let prev = history_changes(h, w - 1);
        if i < prev.len() {
            lemma_history_stamped(h, w - 1, i);
        } else {
            lemma_step_stamp(
                property_views(h[w - 2].node.properties@),
                property_views(h[w - 1].node.properties@),
                h[w - 1].timestamp_millis,
                h[w - 1].node.properties@.len() as int,
                i - prev.len(),
            );
            assert(history_changes(h, w)[i].3 == h[w - 1].timestamp_millis);
        }
    }
}

proof fn lemma_step_stamp(old_ps: Seq<(Seq<char>, serde_json::Value)>, new_ps: Seq<(Seq<char>, serde_json::Value)>, t: i64, p: int, i: int)
    requires
        0 <= i < step_changes(old_ps, new_ps, t, p).len(),
    ensures
        step_changes(old_ps, new_ps, t, p)[i].3 == t,
    decreases p,
{
    if p > 0 {
        let prev = step_changes(old_ps, new_ps, t, p - 1);
        if i < prev.len() {
            lemma_step_stamp(old_ps, new_ps, t, p - 1, i);
        }
    }
}

proof fn lemma_picked_from<A>(cands: Seq<A>, keep: Seq<bool>, i: int)
    requires
        keep.len() == cands.len(),
        0 <= i < picked(cands, keep).len(),
    ensures
        exists|j: int| 0 <= j < cands.len() && picked(cands, keep)[i] == cands[j],
    decreases cands.len(),
{
    if cands.len() > 0 {
        let prev = picked(cands.drop_last(), keep.drop_last());
        if i < prev.len() {
            lemma_picked_from(cands.drop_last(), keep.drop_last(), i);
            let j = choose|j: int| 0 <= j < cands.drop_last().len() && prev[i] == cands.drop_last()[j];
            assert(cands[j] == cands.drop_last()[j]);
        } else {
            assert(picked(cands, keep)[i] == cands[cands.len() - 1]);
        }
    }
}

/// The property changes between consecutive snapshots: of each property of
/// the later node whose key the earlier node has, first, with a value that
/// is not the same, those whose values compare different, in order.
fn calculate_changes(history: &Vec<TemporalSnapshot>) -> (r: Vec<TemporalChange>)
    ensures
        forall|i: int| 0 <= i < r@.len() ==> stamped(#[trigger] r@[i], history@),
        forall|i: int| 0 <= i < r@.len() ==> (#[trigger] r@[i]).reason is None,
        exists|keep: Seq<bool>| keep.len() == all_changes(history@).len()
            && change_views(r@) == #[trigger] picked(all_changes(history@), keep),
{
    let ghost h = history@;
    let mut changes: Vec<TemporalChange> = Vec::new();
    let ghost mut keep: Seq<bool> = Seq::empty();
    let mut w: usize = 1;
    proof {
        assert(change_views(changes@) =~= Seq::<ChangeView>::empty());
    }
    while w < history.len()
        invariant
            1 <= w,
            h == history@,
            w <= h.len() || w == 1,
            forall|i: int| 0 <= i < changes@.len() ==> (#[trigger] changes@[i]).reason is None,
            keep.len() == history_changes(h, w as int).len(),
            change_views(changes@) == picked(history_changes(h, w as int), keep),
        decreases history@.len() - w,
    {
        let old_node = &history[w - 1].node;
        let new_node = &history[w].node;
        let ghost old_ps = property_views(old_node.properties@);
        let ghost new_ps = property_views(new_node.properties@);
        let ghost t = history@[w as int].timestamp_millis;
        let ghost base = history_changes(h, w as int);
        let mut p: usize = 0;
        proof {
            assert(base + step_changes(old_ps, new_ps, t, 0) =~= base);
            lemma_first_prop(old_ps, new_ps[0].0);
        }
        while p < new_node.properties.len()
            invariant
                1 <= w < h.len(),
                h == history@,
                new_node == h[w as int].node,
                old_node == h[w - 1].node,
                old_ps == property_views(old_node.properties@),
                new_ps == property_views(new_node.properties@),
                t == h[w as int].timestamp_millis,
                base == history_changes(h, w as int),
                p <= new_node.properties@.len(),
                forall|i: int| 0 <= i < changes@.len() ==> (#[trigger] changes@[i]).reason is None,
                keep.len() == (base + step_changes(old_ps, new_ps, t, p as int)).len(),
                change_views(changes@) == picked(base + step_changes(old_ps, new_ps, t, p as int), keep),
            decreases new_node.properties@.len() - p,
        {
            let key = new_node.properties[p].0.as_str();
            let ghost k = new_ps[p as int].0;
            proof {
                lemma_first_prop(old_ps, k);
                assert(k == key@);
            }
            let mut q: usize = 0;
            let mut found: Option<usize> = None;
            while q < old_node.properties.len() && found.is_none()
                invariant
                    q <= old_node.properties@.len(),
                    old_ps == property_views(old_node.properties@),
                    k == key@,
                    found is None ==> forall|j: int| 0 <= j < q ==> (#[trigger] old_ps[j]).0 != k,
                    found matches Some(f) ==> f < old_node.properties@.len() && old_ps[f as int].0 == k
                        && forall|j: int| 0 <= j < f ==> (#[trigger] old_ps[j]).0 != k,
                decreases old_node.properties@.len() - q,
            {
                assert(old_ps[q as int] == (old_node.properties@[q as int].0@, old_node.properties@[q as int].1));
                if str_eq(old_node.properties[q].0.as_str(), key) {
                    found = Some(q);
                }
                q = q + 1;
            }
            let ghost before = base + step_changes(old_ps, new_ps, t, p as int);
            let ghost after = base + step_changes(old_ps, new_ps, t, p as int + 1);
            proof {
                assert(new_ps[p as int] == (new_node.properties@[p as int].0@, new_node.properties@[p as int].1));
                match found {
                    Some(f) => {
                        assert(first_prop(old_ps, k) == Some(f as int));
                        assert(old_ps[f as int].1 == old_node.properties@[f as int].1);
                    },
                    None => {
                        assert(first_prop(old_ps, k) is None);
                    },
                }
            }
            match found {
                Some(f) => {
                    if json_differs(&old_node.properties[f].1, &new_node.properties[p].1) {
                        let ghost cb = changes@;
                        changes.push(TemporalChange {
                            property: new_node.properties[p].0.clone(),
                            old_value: json_clone(&old_node.properties[f].1),
                            new_value: json_clone(&new_node.properties[p].1),
                            changed_at_millis: history[w].timestamp_millis,
                            reason: None,
                        });
                        proof {
                            assert(after =~= before.push((k, old_ps[f as int].1, new_ps[p as int].1, t)));
                            assert(change_views(changes@) =~= change_views(cb).push((k, old_ps[f as int].1, new_ps[p as int].1, t)));
                            let k0 = keep;
                            keep = keep.push(true);
                            assert(after.drop_last() =~= before);
                            assert(keep.drop_last() =~= k0);
                            assert(picked(after, keep) == picked(before, k0).push(after.last()));
                        }
                    } else {
                        proof {
                            if old_ps[f as int].1 != new_ps[p as int].1 {
                                assert(after =~= before.push((k, old_ps[f as int].1, new_ps[p as int].1, t)));
                                let k0 = keep;
                                keep = keep.push(false);
                                assert(after.drop_last() =~= before);
                                assert(keep.drop_last() =~= k0);
                                assert(picked(after, keep) == picked(before, k0));
                            } else {
                                assert(after =~= before);
                            }
                        }
                    }
                },
                None => {
                    proof {
                        assert(after =~= before);
                    }
                },
            }
            p = p + 1;
        }
        proof {
            assert(history_changes(h, w as int + 1) =~= base + step_changes(old_ps, new_ps, t, new_node.properties@.len() as int));
        }
        w = w + 1;
    }
    proof {
        let n = if h.len() < 1 { 1 } else { h.len() as int };
        assert(w == n);
        assert(change_views(changes@) == picked(all_changes(h), keep));
        assert forall|i: int| 0 <= i < changes@.len() implies stamped(#[trigger] changes@[i], history@) by {
            let cands = history_changes(h, n);
            assert(change_views(changes@)[i] == picked(cands, keep)[i]);
            lemma_picked_from(cands, keep, i);
            let j = choose|j: int| 0 <= j < cands.len() && picked(cands, keep)[i] == cands[j];
            lemma_history_stamped(h, n, j);
        }
    }
    changes
}

/// The knowledge graph: nodes and edges by identifier, each node's
/// outgoing and incoming edges, and each node's snapshots.
pub struct MemoryGraph {
    nodes: Vec<(String, Node)>,
    edges: Vec<(String, Edge)>,
    outgoing: Vec<(String, Vec<String>)>,
    incoming: Vec<(String, Vec<String>)>,
    snapshots: Vec<(String, Vec<TemporalSnapshot>)>,
}

/// Every node's properties have distinct keys.
pub open spec fn properties_distinct(nodes: Seq<(String, Node)>) -> bool {
    forall|i: int| 0 <= i < nodes.len() ==> distinct_keys(property_views((#[trigger] nodes[i]).1.properties@))
}

impl MemoryGraph {
    /// The nodes by identifier.
    pub closed spec fn nodes_view(&self) -> Seq<(Seq<char>, Node)> {
        keyed(self.nodes@)
    }

    /// The edges by identifier.
    pub closed spec fn edges_view(&self) -> Seq<(Seq<char>, Edge)> {
        keyed(self.edges@)
    }

    /// The identifiers of each node's outgoing edges, in the order added.
    pub closed spec fn outgoing_view(&self) -> Seq<(Seq<char>, Vec<String>)> {
        keyed(self.outgoing@)
    }

    /// The identifiers of each node's incoming edges, in the order added.
    pub closed spec fn incoming_view(&self) -> Seq<(Seq<char>, Vec<String>)> {
        keyed(self.incoming@)
    }

    /// Each node's snapshots, oldest first.
    pub closed spec fn snapshots_view(&self) -> Seq<(Seq<char>, Vec<TemporalSnapshot>)> {
        keyed(self.snapshots@)
    }

    /// No identifier twice in any table, no property key twice in a node.
    pub closed spec fn wf(&self) -> bool {
        &&& distinct_keys(entry_names(self.nodes@))
        &&& distinct_keys(entry_names(self.edges@))
        &&& distinct_keys(entry_names(self.outgoing@))
        &&& distinct_keys(entry_names(self.incoming@))
        &&& distinct_keys(entry_names(self.snapshots@))
        &&& properties_distinct(self.nodes@)
        &&& forall|i: int| 0 <= i < self.nodes@.len() ==> (#[trigger] self.nodes@[i]).0@ == self.nodes@[i].1.id@
        &&& forall|i: int| 0 <= i < self.edges@.len() ==> (#[trigger] self.edges@[i]).0@ == self.edges@[i].1.id@
    }

    /// An empty graph.
    pub fn new() -> (r: Self)
        ensures
            r.wf(),
            r.nodes_view().len() == 0,
            r.edges_view().len() == 0,
            r.outgoing_view().len() == 0,
            r.incoming_view().len() == 0,
            r.filed_by_source(),
            r.snapshots_view().len() == 0,
    {
        let r = MemoryGraph {
            nodes: Vec::new(),
            edges: Vec::new(),
            outgoing: Vec::new(),
            incoming: Vec::new(),
            snapshots: Vec::new(),
        };
        assert(entry_names(r.nodes@) =~= Seq::<(Seq<char>, ())>::empty());
        assert(entry_names(r.edges@) =~= Seq::<(Seq<char>, ())>::empty());
        assert(entry_names(r.outgoing@) =~= Seq::<(Seq<char>, ())>::empty());
        assert(entry_names(r.incoming@) =~= Seq::<(Seq<char>, ())>::empty());
        assert(entry_names(r.snapshots@) =~= Seq::<(Seq<char>, ())>::empty());
        r
    }

    /// How many nodes there are.
    pub fn node_count(&self) -> (r: usize)
        ensures
            r == self.nodes_view().len(),
    {
        self.nodes.len()
    }

    /// How many edges there are.
    pub fn edge_count(&self) -> (r: usize)
        ensures
            r == self.edges_view().len(),
    {
        self.edges.len()
    }

    /// The node under `id`.
    pub closed spec fn node_of(&self, id: Seq<char>) -> Option<Node> {
        value_of(self.nodes@, id)
    }

    /// The edge under `id`.
    pub closed spec fn edge_of(&self, id: Seq<char>) -> Option<Edge> {
        value_of(self.edges@, id)
    }

    /// The identifiers of the edges out of `id`, in the order added.
    pub closed spec fn out_edges(&self, id: Seq<char>) -> Seq<Seq<char>> {
        str_views(items_of(self.outgoing@, id))
    }

    /// The identifiers of the edges into `id`, in the order added.
    pub closed spec fn in_edges(&self, id: Seq<char>) -> Seq<Seq<char>> {
        str_views(items_of(self.incoming@, id))
    }

    /// The snapshots of node `id`, oldest first.
    pub closed spec fn history_of(&self, id: Seq<char>) -> Seq<TemporalSnapshot> {
        items_of(self.snapshots@, id)
    }

    /// Add `node` at `now_millis`, replacing one with its identifier, and
    /// take its first snapshot.
    pub fn add_node_at(&mut self, node: Node, now_millis: i64) -> (r: Result<String, MemoryGraphError>)
        requires
            old(self).wf(),
            distinct_keys(property_views(node.properties@)),
        ensures
            final(self).wf(),
            r matches Ok(id) && id@ == node.id@,
            final(self).node_of(node.id@) == Some(node),
            forall|k: Seq<char>| k != node.id@ ==> #[trigger] final(self).node_of(k) == old(self).node_of(k),
            final(self).edges_view() == old(self).edges_view(),
            final(self).history_of(node.id@).len() == old(self).history_of(node.id@).len() + 1,
            final(self).history_of(node.id@).drop_last() == old(self).history_of(node.id@),
            same_node(final(self).history_of(node.id@).last().node, node),
            final(self).history_of(node.id@).last().timestamp_millis == now_millis,
            final(self).out_edges(node.id@) == old(self).out_edges(node.id@),
            final(self).in_edges(node.id@) == old(self).in_edges(node.id@),
            old(self).filed_by_source() ==> final(self).filed_by_source(),
    {
        let ghost g0 = *self;
        let id = node.id.clone();
        let copy = node.duplicate();
        let ghost nodes_before = self.nodes@;
        let ghost n = node;
        put_named(&mut self.nodes, id.as_str(), node);
        proof {
            lemma_put_others(nodes_before, self.nodes@, id@);
            assert forall|i: int| 0 <= i < self.nodes@.len() implies distinct_keys(
                property_views((#[trigger] self.nodes@[i]).1.properties@),
            ) by {
                if i < nodes_before.len() && nodes_before[i].0@ != id@ {
                    assert(self.nodes@[i] == nodes_before[i]);
                } else {
                    assert(names_of(self.nodes@).len() == self.nodes@.len());
                    assert(names_of(nodes_before).len() == nodes_before.len());
                    assert(names_of(self.nodes@)[i] == self.nodes@[i].0@);
                    if names_of(nodes_before).contains(id@) {
                        assert(names_of(self.nodes@) == names_of(nodes_before));
                        assert(i < nodes_before.len());
                        assert(names_of(nodes_before)[i] == nodes_before[i].0@);
                    } else {
                        assert(names_of(self.nodes@) == names_of(nodes_before).push(id@));
                        if i < nodes_before.len() {
                            assert(names_of(nodes_before)[i] == nodes_before[i].0@);
                            assert(names_of(nodes_before).contains(id@));
                        }
                    }
                    assert(self.nodes@[i].0@ == id@);
                    assert(entry_names(self.nodes@)[i].0 == id@);
                    lemma_key_index_unique(entry_names(self.nodes@), i);
                }
            }
            assert forall|i: int| 0 <= i < self.nodes@.len() implies (#[trigger] self.nodes@[i]).0@ == self.nodes@[i].1.id@ by {
                if i < nodes_before.len() && nodes_before[i].0@ != id@ {
                    assert(self.nodes@[i] == nodes_before[i]);
                } else {
                    assert(names_of(self.nodes@).len() == self.nodes@.len());
                    assert(names_of(nodes_before).len() == nodes_before.len());
                    assert(names_of(self.nodes@)[i] == self.nodes@[i].0@);
                    if names_of(nodes_before).contains(id@) {
                        assert(names_of(nodes_before)[i] == nodes_before[i].0@);
                    } else {
                        if i < nodes_before.len() {
                            assert(names_of(nodes_before)[i] == nodes_before[i].0@);
                            assert(names_of(nodes_before).contains(id@));
                        }
                    }
                    assert(entry_names(self.nodes@)[i].0 == id@);
                    lemma_key_index_unique(entry_names(self.nodes@), i);
                }
            }
        }
        ensure_entry(&mut self.outgoing, id.as_str());
        ensure_entry(&mut self.incoming, id.as_str());
        let ghost snaps_before = self.snapshots@;
        append_entry(&mut self.snapshots, id.as_str(), TemporalSnapshot { node: copy, timestamp_millis: now_millis });
        proof {
            if g0.filed_by_source() {
                assert forall|k: Seq<char>| #[trigger] self.out_edges(k) == g0.out_edges(k) by {
                    if k != id@ {
                        assert(items_of(self.outgoing@, k) == items_of(g0.outgoing@, k));
                    }
                }
                assert forall|k: Seq<char>| #[trigger] self.edge_of(k) == g0.edge_of(k) by {}
                Self::lemma_filing_follows(g0, *self);
            }
        }
        Ok(id)
    }

    /// Add `node` now.
    pub fn add_node(&mut self, node: Node) -> (r: Result<String, MemoryGraphError>)
        requires
            old(self).wf(),
            distinct_keys(property_views(node.properties@)),
        ensures
            final(self).wf(),
            r matches Ok(id) && id@ == node.id@,
            final(self).node_of(node.id@) == Some(node),
            forall|k: Seq<char>| k != node.id@ ==> #[trigger] final(self).node_of(k) == old(self).node_of(k),
            final(self).edges_view() == old(self).edges_view(),
            old(self).filed_by_source() ==> final(self).filed_by_source(),
    {
        let now = utc_now_millis();
        self.add_node_at(node, now)
    }

    /// Add `edge` between two known nodes, replacing one with its
    /// identifier, and list it as leaving its source and entering its
    /// target.
    pub fn add_edge(&mut self, edge: Edge) -> (r: Result<String, MemoryGraphError>)
        requires
            old(self).wf(),
        ensures
            final(self).wf(),
            old(self).node_of(edge.from@) is None ==> (r matches Err(MemoryGraphError::NodeNotFound(m)) && m@ == edge.from@)
                && final(self).edges_view() == old(self).edges_view(),
            old(self).node_of(edge.from@) is Some && old(self).node_of(edge.to@) is None ==> (r matches Err(
                MemoryGraphError::NodeNotFound(m),
            ) && m@ == edge.to@) && final(self).edges_view() == old(self).edges_view(),
            old(self).node_of(edge.from@) is Some && old(self).node_of(edge.to@) is Some ==> {
                &&& r matches Ok(id) && id@ == edge.id@
                &&& final(self).edge_of(edge.id@) == Some(edge)
                &&& forall|k: Seq<char>| k != edge.id@ ==> #[trigger] final(self).edge_of(k) == old(self).edge_of(k)
                &&& final(self).out_edges(edge.from@) == old(self).out_edges(edge.from@).push(edge.id@)
                &&& final(self).in_edges(edge.to@) == old(self).in_edges(edge.to@).push(edge.id@)
                &&& forall|k: Seq<char>| k != edge.from@ ==> #[trigger] final(self).out_edges(k) == old(self).out_edges(k)
                &&& forall|k: Seq<char>| k != edge.to@ ==> #[trigger] final(self).in_edges(k) == old(self).in_edges(k)
            },
            forall|k: Seq<char>| #[trigger] final(self).node_of(k) == old(self).node_of(k),
            old(self).filed_by_source() && old(self).edge_of(edge.id@) is None ==> final(self).filed_by_source(),
    {
        if find_name(&self.nodes, edge.from.as_str()).is_none() {
            return Err(MemoryGraphError::NodeNotFound(edge.from.clone()));
        }
        if find_name(&self.nodes, edge.to.as_str()).is_none() {
            return Err(MemoryGraphError::NodeNotFound(edge.to.clone()));
        }
        let ghost g0 = *self;
        let id = edge.id.clone();
        let from = edge.from.clone();
        let to = edge.to.clone();
        let ghost edges_before = self.edges@;
        let ghost e = edge;
        put_named(&mut self.edges, id.as_str(), edge);
        proof {
            lemma_put_others(edges_before, self.edges@, id@);
            assert forall|i: int| 0 <= i < self.edges@.len() implies (#[trigger] self.edges@[i]).0@ == self.edges@[i].1.id@ by {
                if i < edges_before.len() && edges_before[i].0@ != id@ {
                    assert(self.edges@[i] == edges_before[i]);
                } else {
                    assert(names_of(self.edges@).len() == self.edges@.len());
                    assert(names_of(edges_before).len() == edges_before.len());
                    assert(names_of(self.edges@)[i] == self.edges@[i].0@);
                    if names_of(edges_before).contains(id@) {
                        assert(names_of(edges_before)[i] == edges_before[i].0@);
                    } else {
                        if i < edges_before.len() {
                            assert(names_of(edges_before)[i] == edges_before[i].0@);
                            assert(names_of(edges_before).contains(id@));
                        }
                    }
                    assert(entry_names(self.edges@)[i].0 == id@);
                    lemma_key_index_unique(entry_names(self.edges@), i);
                }
            }
        }
        let ghost out_before = self.outgoing@;
        let ghost in_before = self.incoming@;
        append_entry(&mut self.outgoing, from.as_str(), id.clone());
        append_entry(&mut self.incoming, to.as_str(), id.clone());
        proof {
            assert(str_views(items_of(self.outgoing@, from@)) =~= str_views(items_of(out_before, from@)).push(id@));
            assert(str_views(items_of(self.incoming@, to@)) =~= str_views(items_of(in_before, to@)).push(id@));
            if g0.filed_by_source() && g0.edge_of(id@) is None {
                assert forall|a: Seq<char>, x: Seq<char>| #[trigger] self.out_edges(a).contains(x) implies (self.edge_of(
                    x,
                ) matches Some(y) && y.from@ == a) by {
                    if a == from@ {
                        assert(self.out_edges(a) == g0.out_edges(a).push(id@));
                        if x != id@ {
                            let j = choose|j: int| 0 <= j < self.out_edges(a).len() && self.out_edges(a)[j] == x;
                            assert(g0.out_edges(a)[j] == x);
                            assert(g0.out_edges(a).contains(x));
                        }
                    } else {
                        assert(items_of(self.outgoing@, a) == items_of(out_before, a));
                        assert(self.out_edges(a) == g0.out_edges(a));
                        assert(g0.out_edges(a).contains(x));
                    }
                }
            }
        }
        Ok(id)
    }

    /// A copy of node `id` after recording an access at `now_millis`.
    pub fn get_node_at(&mut self, id: &str, now_millis: i64) -> (r: Option<Node>)
        requires
            old(self).wf(),
        ensures
            final(self).wf(),
            final(self).edges_view() == old(self).edges_view(),
            forall|k: Seq<char>| k != id@ ==> #[trigger] final(self).node_of(k) == old(self).node_of(k),
            match old(self).node_of(id@) {
                None => r is None && final(self).node_of(id@) is None,
                Some(n) => {
                    let m = Node {
                        access_count: (if n.access_count == u32::MAX { 0 } else { n.access_count + 1 }) as u32,
                        last_accessed_millis: now_millis,
                        ..n
                    };
                    &&& final(self).node_of(id@) == Some(m)
                    &&& r matches Some(c) && same_node(c, m)
                },
            },
            old(self).filed_by_source() ==> final(self).filed_by_source(),
    {
        let ghost g0 = *self;
        let ghost before = self.nodes@;
        match find_name(&self.nodes, id) {
            Some(i) => {
                let (name, mut node) = self.nodes.remove(i);
                node.access_count = node.access_count.wrapping_add(1);
                node.last_accessed_millis = now_millis;
                let copy = node.duplicate();
                self.nodes.insert(i, (name, node));
                proof {
                    assert(entry_names(self.nodes@) =~= entry_names(before));
                    lemma_key_index_unique(entry_names(before), i as int);
                    assert forall|k: Seq<char>| k != id@ implies #[trigger] value_of(self.nodes@, k) == value_of(before, k) by {
                        if has_key(entry_names(before), k) {
                            let j = key_index(entry_names(before), k);
                            assert(entry_names(before)[j].0 == k);
                            assert(j != i);
                            assert(self.nodes@[j] == before[j]);
                        }
                    }
                    assert forall|q: int| 0 <= q < self.nodes@.len() implies distinct_keys(
                        property_views((#[trigger] self.nodes@[q]).1.properties@),
                    ) by {
                        if q != i {
                            assert(self.nodes@[q] == before[q]);
                        } else {
                            assert(self.nodes@[q].1.properties == before[q].1.properties);
                        }
                    }
                    assert forall|q: int| 0 <= q < self.nodes@.len() implies (#[trigger] self.nodes@[q]).0@ == self.nodes@[q].1.id@ by {
                        if q != i {
                            assert(self.nodes@[q] == before[q]);
                        }
                    }
                    if g0.filed_by_source() {
                        assert forall|k: Seq<char>| #[trigger] self.out_edges(k) == g0.out_edges(k) by {}
                        assert forall|k: Seq<char>| #[trigger] self.edge_of(k) == g0.edge_of(k) by {}
                        Self::lemma_filing_follows(g0, *self);
                    }
                }
                Some(copy)
            },
            None => None,
        }
    }

    /// A copy of node `id` after recording an access now.
    pub fn get_node(&mut self, id: &str) -> (r: Option<Node>)
        requires
            old(self).wf(),
        ensures
            final(self).wf(),
            old(self).node_of(id@) is None ==> r is None,
            old(self).node_of(id@) matches Some(n) ==> (r matches Some(c) && c.id@ == n.id@ && c.label@ == n.label@
                && c.properties@ == n.properties@ && c.importance_permille == n.importance_permille),
            old(self).filed_by_source() ==> final(self).filed_by_source(),
    {
        let now = utc_now_millis();
        self.get_node_at(id, now)
    }

    /// Set `properties` on node `id` in turn and take a snapshot at
    /// `now_millis`.
    pub fn update_node_at(&mut self, id: &str, properties: Vec<(String, serde_json::Value)>, now_millis: i64) -> (r: Result<(), MemoryGraphError>)
        requires
            old(self).wf(),
        ensures
            final(self).wf(),
            final(self).edges_view() == old(self).edges_view(),
            forall|k: Seq<char>| k != id@ ==> #[trigger] final(self).node_of(k) == old(self).node_of(k),
            match old(self).node_of(id@) {
                None => (r matches Err(MemoryGraphError::NodeNotFound(m)) && m@ == id@) && final(self).node_of(id@) is None
                    && final(self).history_of(id@) == old(self).history_of(id@),
                Some(n) => {
                    &&& r is Ok
                    &&& final(self).node_of(id@) matches Some(m) && property_views(m.properties@) == apply_properties(
                        property_views(n.properties@),
                        properties@,
                    ) && m.id == n.id && m.label == n.label && m.importance_permille == n.importance_permille
                    &&& final(self).history_of(id@).len() == old(self).history_of(id@).len() + 1
                    &&& final(self).history_of(id@).drop_last() == old(self).history_of(id@)
                    &&& final(self).history_of(id@).last().timestamp_millis == now_millis
                    &&& property_views(final(self).history_of(id@).last().node.properties@) == apply_properties(
                        property_views(n.properties@),
                        properties@,
                    )
                },
            },
            old(self).filed_by_source() ==> final(self).filed_by_source(),
    {
        let ghost g0 = *self;
        let ghost before = self.nodes@;
        let i = match find_name(&self.nodes, id) {
            Some(i) => i,
            None => {
                return Err(MemoryGraphError::NodeNotFound(to_owned_string(id)));
            },
        };
        let (name, mut node) = self.nodes.remove(i);
        let ghost start = property_views(node.properties@);
        assert(before[i as int].1 == node);
        let mut updates = properties;
        let mut k: usize = 0;
        let ghost all = updates@;
        while k < updates.len()
            invariant
                k <= updates@.len(),
                updates@ == all,
                distinct_keys(property_views(node.properties@)),
                property_views(node.properties@) == apply_properties(start, all.take(k as int)),
                node.id == before[i as int].1.id,
                node.label == before[i as int].1.label,
                node.importance_permille == before[i as int].1.importance_permille,
            decreases updates@.len() - k,
        {
            let key = updates[k].0.clone();
            let value = json_clone(&updates[k].1);
            proof {
                assert(all.take(k as int + 1).drop_last() =~= all.take(k as int));
            }
            set_property(&mut node.properties, key, value);
            k = k + 1;
        }
        assert(all.take(k as int) =~= all);
        let copy = node.duplicate();
        self.nodes.insert(i, (name, node));
        proof {
            assert(entry_names(self.nodes@) =~= entry_names(before));
            lemma_key_index_unique(entry_names(before), i as int);
            assert forall|q: Seq<char>| q != id@ implies #[trigger] value_of(self.nodes@, q) == value_of(before, q) by {
                if has_key(entry_names(before), q) {
                    let j = key_index(entry_names(before), q);
                    assert(entry_names(before)[j].0 == q);
                    assert(j != i);
                    assert(self.nodes@[j] == before[j]);
                }
            }
            assert forall|q: int| 0 <= q < self.nodes@.len() implies distinct_keys(
                property_views((#[trigger] self.nodes@[q]).1.properties@),
            ) by {
                if q != i {
                    assert(self.nodes@[q] == before[q]);
                }
            }
            assert forall|q: int| 0 <= q < self.nodes@.len() implies (#[trigger] self.nodes@[q]).0@ == self.nodes@[q].1.id@ by {
                if q != i {
                    assert(self.nodes@[q] == before[q]);
                }
            }
        }
        append_entry(&mut self.snapshots, id, TemporalSnapshot { node: copy, timestamp_millis: now_millis });
        proof {
            if g0.filed_by_source() {
                assert forall|k: Seq<char>| #[trigger] self.out_edges(k) == g0.out_edges(k) by {}
                assert forall|k: Seq<char>| #[trigger] self.edge_of(k) == g0.edge_of(k) by {}
                Self::lemma_filing_follows(g0, *self);
            }
        }
        Ok(())
    }

    /// Set `properties` on node `id` now.
    pub fn update_node(&mut self, id: &str, properties: Vec<(String, serde_json::Value)>) -> (r: Result<(), MemoryGraphError>)
        requires
            old(self).wf(),
        ensures
            final(self).wf(),
            old(self).node_of(id@) is None ==> (r matches Err(MemoryGraphError::NodeNotFound(m)) && m@ == id@),
            old(self).node_of(id@) is Some ==> r is Ok,
            old(self).filed_by_source() ==> final(self).filed_by_source(),
    {
        let now = utc_now_millis();
        self.update_node_at(id, properties, now)
    }


    /// Some edge listed as leaving `a` leads to `b`.
    pub open spec fn linked(&self, a: Seq<char>, b: Seq<char>) -> bool {
        exists|e: Seq<char>| #[trigger] self.out_edges(a).contains(e) && (self.edge_of(e) matches Some(x) && x.to@ == b)
    }

    /// `path` is a walk of the graph from one of `starts`, at most
    /// `max_depth` steps long.
    pub open spec fn walk(&self, path: Seq<String>, starts: Seq<Seq<char>>, max_depth: u32) -> bool {
        &&& path.len() >= 1
        &&& path.len() <= max_depth + 1
        &&& starts.contains(path[0]@)
        &&& forall|t: int| 0 <= t < path.len() - 1 ==> self.linked((#[trigger] path[t])@, path[t + 1]@)
    }

    /// Edge `e` was taken from the outgoing list of one of the nodes `rs`.
    pub open spec fn leaves_one_of(&self, rs: Seq<Node>, e: Edge) -> bool {
        exists|k: int| 0 <= k < rs.len() && self.out_edges((#[trigger] rs[k]).id@).contains(e.id@)
    }

    /// Every edge listed as going out of a node exists and starts at that
    /// node.
    pub open spec fn filed_by_source(&self) -> bool {
        forall|a: Seq<char>, id: Seq<char>|
            #[trigger] self.out_edges(a).contains(id) ==> (self.edge_of(id) matches Some(x) && x.from@ == a)
    }

    /// Whether the outgoing lists are filed by source depends on them and on
    /// the edges alone.
    proof fn lemma_filing_follows(before: MemoryGraph, after: MemoryGraph)
        requires
            before.filed_by_source(),
            forall|k: Seq<char>| #[trigger] after.out_edges(k) == before.out_edges(k),
            forall|k: Seq<char>| #[trigger] after.edge_of(k) == before.edge_of(k),
        ensures
            after.filed_by_source(),
    {
        assert forall|a: Seq<char>, id: Seq<char>| #[trigger] after.out_edges(a).contains(id) implies (after.edge_of(
            id,
        ) matches Some(x) && x.from@ == a) by {
            assert(after.out_edges(a) == before.out_edges(a));
            assert(after.edge_of(id) == before.edge_of(id));
        }
    }

    /// Breadth first from `start_ids`, following the relationships asked
    /// for, no deeper than `max_depth`, keeping the nodes that pass the
    /// filters, at most `limit` of them; a node is met once.
    pub fn traverse(
        &self,
        start_ids: &Vec<String>,
        relationships: &Vec<RelationshipType>,
        max_depth: u32,
        node_types: &Option<Vec<NodeType>>,
        min_importance_permille: Option<u32>,
        temporal_filter: bool,
        limit: u32,
    ) -> (r: (Vec<Node>, Vec<Edge>, Vec<Vec<String>>))
        requires
            self.wf(),
        ensures
            r.0@.len() <= limit,
            r.0@.len() == r.2@.len(),
            forall|i: int, j: int| 0 <= i < j < r.0@.len() ==> (#[trigger] r.0@[i]).id@ != (#[trigger] r.0@[j]).id@,
            forall|i: int| 0 <= i < r.0@.len() ==> {
                &&& self.node_of((#[trigger] r.0@[i]).id@) matches Some(n) && same_node(r.0@[i], n)
                &&& passes(r.0@[i], *node_types, min_importance_permille, temporal_filter)
                &&& self.walk(r.2@[i]@, str_views(start_ids@), max_depth)
                &&& r.2@[i]@.last()@ == r.0@[i].id@
            },
            forall|i: int| 0 <= i < r.1@.len() ==> (self.edge_of((#[trigger] r.1@[i]).id@) matches Some(x) && same_edge(
                r.1@[i],
                x,
            )) && followed(relationships@, r.1@[i].relationship),
            r.0@.len() < limit ==> forall|s: int| 0 <= s < start_ids@.len() ==> self.kept_node(
                (#[trigger] start_ids@[s])@,
                *node_types,
                min_importance_permille,
                temporal_filter,
            ) ==> found_in(r.0@, start_ids@[s]@),
            forall|i: int| 0 <= i < r.1@.len() ==> self.leaves_one_of(r.0@, #[trigger] r.1@[i]),
            forall|i: int| 0 <= i < r.0@.len() ==> (min_importance_permille matches Some(m) ==> (#[trigger] r.0@[i]).importance_permille >= m),
            forall|i: int| 0 <= i < r.0@.len() ==> (temporal_filter ==> (#[trigger] r.0@[i]).temporal.is_current),
            self.filed_by_source() ==> forall|i: int| 0 <= i < r.1@.len() ==> found_in(r.0@, (#[trigger] r.1@[i]).from@),
    {
        proof {
            lemma_keyed(self.nodes@);
        }
        let mut visited: Vec<String> = Vec::new();
        let mut result_nodes: Vec<Node> = Vec::new();
        let mut result_edges: Vec<Edge> = Vec::new();
        let mut paths: Vec<Vec<String>> = Vec::new();
        let mut queue: Vec<(String, Vec<String>, u64)> = Vec::new();
        let mut s: usize = 0;
        while s < start_ids.len()
            invariant
                s <= start_ids@.len(),
                queue@.len() == s,
                forall|q: int| 0 <= q < s ==> (#[trigger] queue@[q]).0@ == start_ids@[q]@ && queue@[q].2 == 0,
                forall|q: int| 0 <= q < queue@.len() ==> {
                    &&& (#[trigger] queue@[q]).1@.len() == queue@[q].2 + 1
                    &&& queue@[q].2 <= max_depth as u64 + 1
                    &&& queue@[q].1@.last()@ == queue@[q].0@
                    &&& self.walk(queue@[q].1@, str_views(start_ids@), max_depth)
                        || queue@[q].2 > max_depth
                },
            decreases start_ids@.len() - s,
        {
            let id = start_ids[s].clone();
            let mut path: Vec<String> = Vec::new();
            path.push(start_ids[s].clone());
            proof {
                assert(str_views(start_ids@)[s as int] == start_ids@[s as int]@);
                assert(path@[0]@ == start_ids@[s as int]@);
            }
            queue.push((id, path, 0));
            s = s + 1;
        }
        let mut head: usize = 0;
        let mut done = false;
        while head < queue.len() && !done
            invariant
                head <= queue@.len(),
                self.wf(),
                distinct_keys(keyed(self.nodes@)),
                start_ids@.len() <= queue@.len(),
                forall|q: int| 0 <= q < start_ids@.len() ==> (#[trigger] queue@[q]).0@ == start_ids@[q]@ && queue@[q].2 == 0,
                self.covers(str_views(visited@), result_nodes@, *node_types, min_importance_permille, temporal_filter),
                !done ==> forall|q: int| 0 <= q < head && q < start_ids@.len() ==> str_views(visited@).contains(
                    (#[trigger] start_ids@[q])@,
                ),
                done ==> result_nodes@.len() == limit,
                result_nodes@.len() == paths@.len(),
                result_nodes@.len() <= limit,
                forall|q: int| 0 <= q < queue@.len() ==> {
                    &&& (#[trigger] queue@[q]).1@.len() == queue@[q].2 + 1
                    &&& queue@[q].2 <= max_depth as u64 + 1
                    &&& queue@[q].1@.last()@ == queue@[q].0@
                    &&& self.walk(queue@[q].1@, str_views(start_ids@), max_depth) || queue@[q].2 > max_depth
                },
                forall|i: int, j: int| 0 <= i < j < result_nodes@.len() ==> (#[trigger] result_nodes@[i]).id@
                    != (#[trigger] result_nodes@[j]).id@,
                forall|i: int| 0 <= i < result_nodes@.len() ==> str_views(visited@).contains(
                    (#[trigger] result_nodes@[i]).id@,
                ),
                forall|i: int| 0 <= i < result_nodes@.len() ==> {
                    &&& self.node_of((#[trigger] result_nodes@[i]).id@) matches Some(n) && same_node(result_nodes@[i], n)
                    &&& passes(result_nodes@[i], *node_types, min_importance_permille, temporal_filter)
                    &&& self.walk(paths@[i]@, str_views(start_ids@), max_depth)
                    &&& paths@[i]@.last()@ == result_nodes@[i].id@
                },
                forall|i: int| 0 <= i < result_edges@.len() ==> (self.edge_of((#[trigger] result_edges@[i]).id@) matches Some(
                    x,
                ) && same_edge(result_edges@[i], x)) && followed(relationships@, result_edges@[i].relationship),
                forall|i: int| 0 <= i < result_edges@.len() ==> self.leaves_one_of(result_nodes@, #[trigger] result_edges@[i]),
            decreases unvisited(entry_names(self.nodes@), str_views(visited@)), queue@.len() - head,
        {
            let ghost visited_before = str_views(visited@);
            let ghost qlen_before = queue@.len();
            let ghost head_before = head;
            let node_id = queue[head].0.clone();
            let depth = queue[head].2;
            let path = copy_strings(&queue[head].1);
            proof {
                assert(queue@[head as int].1@.len() == queue@[head as int].2 + 1);
            }
            head = head + 1;
            proof {
                assert(node_id@ == queue@[head_before as int].0@);
                assert(depth == queue@[head_before as int].2);
            }
            if contains_str(&visited, node_id.as_str()) || depth > max_depth as u64 {
                proof {
                    lemma_unvisited_shrinks(entry_names(self.nodes@), visited_before, node_id@);
                    assert forall|q: int| 0 <= q < head && q < start_ids@.len() implies str_views(visited@).contains(
                        (#[trigger] start_ids@[q])@,
                    ) by {
                        if q == head_before {
                            assert(queue@[q].2 == 0);
                        }
                    }
                }
            } else if result_nodes.len() >= limit as usize {
                done = true;
            } else {
                visited.push(node_id.clone());
                proof {
                    assert(str_views(visited@) =~= visited_before.push(node_id@));
                    assert forall|q: int| 0 <= q < head && q < start_ids@.len() implies str_views(visited@).contains(
                        (#[trigger] start_ids@[q])@,
                    ) by {
                        if q == head_before {
                            assert(str_views(visited@)[visited_before.len() as int] == node_id@);
                        } else {
                            let w = choose|w: int| 0 <= w < visited_before.len() && visited_before[w] == start_ids@[q]@;
                            assert(str_views(visited@)[w] == start_ids@[q]@);
                        }
                    }
                    lemma_unvisited_shrinks(entry_names(self.nodes@), visited_before, node_id@);
                    assert forall|i: int| 0 <= i < result_nodes@.len() implies str_views(visited@).contains(
                        (#[trigger] result_nodes@[i]).id@,
                    ) by {
                        let w = choose|w: int| 0 <= w < visited_before.len() && visited_before[w] == result_nodes@[i].id@;
                        assert(str_views(visited@)[w] == result_nodes@[i].id@);
                    }
                }
                match find_name(&self.nodes, node_id.as_str()) {
                    Some(ni) => {
                        let node = &self.nodes[ni].1;
                        let keep = match node_types {
                            Some(ts) => type_listed(ts, &node.node_type),
                            None => true,
                        } && match min_importance_permille {
                            Some(m) => node.importance_permille >= m,
                            None => true,
                        } && (!temporal_filter || node.temporal.is_current);
                        if keep {
                            proof {
                                assert forall|i: int| 0 <= i < result_nodes@.len() implies (#[trigger] result_nodes@[i]).id@
                                    != node_id@ by {
                                    assert(visited_before.contains(result_nodes@[i].id@));
                                }
                                assert(self.nodes@[ni as int].0@ == node_id@);
                                assert(node.id@ == node_id@);
                                lemma_key_index_unique(entry_names(self.nodes@), ni as int);
                            }
                            let ghost rn_before = result_nodes@;
                            let ghost paths_before = paths@;
                            result_nodes.push(node.duplicate());
                            paths.push(copy_strings(&path));
                            proof {
                                assert forall|i: int, j: int| 0 <= i < j < result_nodes@.len() implies (#[trigger] result_nodes@[i]).id@
                                    != (#[trigger] result_nodes@[j]).id@ by {
                                    if j < rn_before.len() {
                                        assert(result_nodes@[i] == rn_before[i]);
                                        assert(result_nodes@[j] == rn_before[j]);
                                    } else {
                                        assert(result_nodes@[i] == rn_before[i]);
                                    }
                                }
                                assert forall|i: int| 0 <= i < result_nodes@.len() implies str_views(visited@).contains(
                                    (#[trigger] result_nodes@[i]).id@,
                                ) by {
                                    if i < rn_before.len() {
                                        assert(result_nodes@[i] == rn_before[i]);
                                    } else {
                                        assert(str_views(visited@)[visited_before.len() as int] == node_id@);
                                    }
                                }
                                assert forall|i: int| 0 <= i < result_nodes@.len() implies {
                                    &&& self.node_of((#[trigger] result_nodes@[i]).id@) matches Some(n) && same_node(result_nodes@[i], n)
                                    &&& passes(result_nodes@[i], *node_types, min_importance_permille, temporal_filter)
                                    &&& self.walk(paths@[i]@, str_views(start_ids@), max_depth)
                                    &&& paths@[i]@.last()@ == result_nodes@[i].id@
                                } by {
                                    if i < rn_before.len() {
                                        assert(result_nodes@[i] == rn_before[i]);
                                        assert(paths@[i] == paths_before[i]);
                                    }
                                }
                            }
                            proof {
                                assert forall|i: int| 0 <= i < result_edges@.len() implies self.leaves_one_of(
                                    result_nodes@,
                                    #[trigger] result_edges@[i],
                                ) by {
                                    let k = choose|k: int| 0 <= k < rn_before.len() && self.out_edges((#[trigger] rn_before[k]).id@).contains(result_edges@[i].id@);
                                    assert(result_nodes@[k] == rn_before[k]);
                                }
                                assert(result_nodes@[rn_before.len() as int].id@ == node_id@);
                                assert(found_in(result_nodes@, node_id@));
                                self.lemma_covers_step(visited_before, rn_before, result_nodes@, node_id@, *node_types, min_importance_permille, temporal_filter);
                            }
                            match find_name(&self.outgoing, node_id.as_str()) {
                                Some(oi) => {
                                    let out = &self.outgoing[oi].1;
                                    let mut e: usize = 0;
                                    while e < out.len()
                                        invariant
                                            e <= out@.len(),
                                            self.wf(),
                                            head <= queue@.len(),
                                            queue@.len() >= qlen_before,
                                            depth <= max_depth as u64,
                                            path@.len() == depth + 1,
                                            path@.last()@ == node_id@,
                                            self.walk(path@, str_views(start_ids@), max_depth),
                                            out@ == items_of(self.outgoing@, node_id@),
                                            start_ids@.len() <= queue@.len(),
                                            forall|q: int| 0 <= q < start_ids@.len() ==> (#[trigger] queue@[q]).0@ == start_ids@[q]@ && queue@[q].2 == 0,
                                            self.covers(str_views(visited@), result_nodes@, *node_types, min_importance_permille, temporal_filter),
                                            forall|q: int| 0 <= q < head && q < start_ids@.len() ==> str_views(visited@).contains(
                                                (#[trigger] start_ids@[q])@,
                                            ),
                                            !done,
                                            forall|q: int| 0 <= q < queue@.len() ==> {
                                                &&& (#[trigger] queue@[q]).1@.len() == queue@[q].2 + 1
                                                &&& queue@[q].2 <= max_depth as u64 + 1
                                                &&& queue@[q].1@.last()@ == queue@[q].0@
                                                &&& self.walk(queue@[q].1@, str_views(start_ids@), max_depth) || queue@[q].2 > max_depth
                                            },
                                            forall|i: int| 0 <= i < result_edges@.len() ==> (self.edge_of(
                                                (#[trigger] result_edges@[i]).id@,
                                            ) matches Some(x) && same_edge(result_edges@[i], x)) && followed(
                                                relationships@,
                                                result_edges@[i].relationship,
                                            ),
                                            result_nodes@.len() > 0,
                                            result_nodes@[result_nodes@.len() - 1].id@ == node_id@,
                                            forall|i: int| 0 <= i < result_edges@.len() ==> self.leaves_one_of(
                                                result_nodes@,
                                                #[trigger] result_edges@[i],
                                            ),
                                        decreases out@.len() - e,
                                    {
                                        match find_name(&self.edges, out[e].as_str()) {
                                            Some(ei) => {
                                                let edge = &self.edges[ei].1;
                                                if relationship_followed(relationships, &edge.relationship) {
                                                    proof {
                                                        lemma_keyed(self.edges@);
                                                        assert(self.edges@[ei as int].0@ == out@[e as int]@);
                                                        assert(edge.id@ == out@[e as int]@);
                                                        lemma_key_index_unique(entry_names(self.edges@), ei as int);
                                                    }
                                                    let ghost re_before = result_edges@;
                                                    result_edges.push(edge.duplicate());
                                                    proof {
                                                        assert forall|i: int| 0 <= i < result_edges@.len() implies (self.edge_of(
                                                            (#[trigger] result_edges@[i]).id@,
                                                        ) matches Some(x) && same_edge(result_edges@[i], x)) && followed(
                                                            relationships@,
                                                            result_edges@[i].relationship,
                                                        ) by {
                                                            if i < re_before.len() {
                                                                assert(result_edges@[i] == re_before[i]);
                                                            }
                                                        }
                                                        let last = result_nodes@.len() - 1;
                                                        assert(str_views(out@)[e as int] == out@[e as int]@);
                                                        assert(self.out_edges(result_nodes@[last].id@).contains(edge.id@));
                                                        assert forall|i: int| 0 <= i < result_edges@.len() implies self.leaves_one_of(
                                                            result_nodes@,
                                                            #[trigger] result_edges@[i],
                                                        ) by {
                                                            if i < re_before.len() {
                                                                assert(result_edges@[i] == re_before[i]);
                                                            } else {
                                                                assert(self.out_edges(result_nodes@[last].id@).contains(result_edges@[i].id@));
                                                            }
                                                        }
                                                    }
                                                    let mut new_path = copy_strings(&path);
                                                    let to = edge.to.clone();
                                                    new_path.push(edge.to.clone());
                                                    proof {
                                                        let np = new_path@;
                                                        assert(str_views(out@)[e as int] == out@[e as int]@);
                                                        assert(self.out_edges(node_id@).contains(out@[e as int]@));
                                                        assert(self.linked(node_id@, to@));
                                                        assert(np.drop_last() =~= path@);
                                                        if depth + 1 <= max_depth {
                                                            assert forall|t: int| 0 <= t < np.len() - 1 implies self.linked(
                                                                (#[trigger] np[t])@,
                                                                np[t + 1]@,
                                                            ) by {
                                                                if t < np.len() - 2 {
                                                                    assert(np[t] == path@[t]);
                                                                    assert(np[t + 1] == path@[t + 1]);
                                                                } else {
                                                                    assert(np[t] == path@[path@.len() - 1]);
                                                                }
                                                            }
                                                            assert(np[0] == path@[0]);
                                                        }
                                                    }
                                                    let ghost qb = queue@;
                                                    queue.push((to, new_path, depth + 1));
                                                    proof {
                                                        assert forall|q: int| 0 <= q < start_ids@.len() implies (#[trigger] queue@[q]).0@ == start_ids@[q]@ && queue@[q].2 == 0 by {
                                                            assert(queue@[q] == qb[q]);
                                                        }
                                                        assert forall|q: int| 0 <= q < queue@.len() implies {
                                                            &&& (#[trigger] queue@[q]).1@.len() == queue@[q].2 + 1
                                                            &&& queue@[q].2 <= max_depth as u64 + 1
                                                            &&& queue@[q].1@.last()@ == queue@[q].0@
                                                            &&& self.walk(queue@[q].1@, str_views(start_ids@), max_depth) || queue@[q].2 > max_depth
                                                        } by {
                                                            if q < qb.len() {
                                                                assert(queue@[q] == qb[q]);
                                                            }
                                                        }
                                                    }
                                                }
                                            },
                                            None => {},
                                        }
                                        e = e + 1;
                                    }
                                },
                                None => {},
                            }
                        } else {
                            proof {
                                assert(self.node_of(node_id@) == Some(*node));
                                assert(!passes(*node, *node_types, min_importance_permille, temporal_filter));
                                self.lemma_covers_step(visited_before, result_nodes@, result_nodes@, node_id@, *node_types, min_importance_permille, temporal_filter);
                            }
                        }
                    },
                    None => {
                        proof {
                            lemma_keyed(self.nodes@);
                            assert(self.node_of(node_id@) is None);
                            self.lemma_covers_step(visited_before, result_nodes@, result_nodes@, node_id@, *node_types, min_importance_permille, temporal_filter);
                        }
                    },
                }
            }
        }
        proof {
            if result_nodes@.len() < limit {
                assert forall|t: int| 0 <= t < start_ids@.len() implies self.kept_node(
                    (#[trigger] start_ids@[t])@,
                    *node_types,
                    min_importance_permille,
                    temporal_filter,
                ) ==> found_in(result_nodes@, start_ids@[t]@) by {
                    let vs = str_views(visited@);
                    assert(vs.contains(start_ids@[t]@));
                    let k = choose|k: int| 0 <= k < vs.len() && vs[k] == start_ids@[t]@;
                    assert(self.kept_node(vs[k], *node_types, min_importance_permille, temporal_filter) ==> found_in(result_nodes@, vs[k]));
                }
            }
            if self.filed_by_source() {
                assert forall|i: int| 0 <= i < result_edges@.len() implies found_in(
                    result_nodes@,
                    (#[trigger] result_edges@[i]).from@,
                ) by {
                    let ed = result_edges@[i];
                    assert(self.leaves_one_of(result_nodes@, ed));
                    let k = choose|k: int| 0 <= k < result_nodes@.len() && self.out_edges((#[trigger] result_nodes@[k]).id@).contains(ed.id@);
                    assert(self.out_edges(result_nodes@[k].id@).contains(ed.id@));
                    assert(result_nodes@[k].id@ == ed.from@);
                }
            }
        }
        (result_nodes, result_edges, paths)
    }

    /// The node `id` exists and passes the filters.
    pub open spec fn kept_node(&self, id: Seq<char>, node_types: Option<Vec<NodeType>>, min_importance: Option<u32>, temporal: bool) -> bool {
        self.node_of(id) matches Some(n) && passes(n, node_types, min_importance, temporal)
    }

    /// Every identifier of `seen` whose node exists and passes the filters
    /// is among the nodes `rs`.
    pub open spec fn covers(&self, seen: Seq<Seq<char>>, rs: Seq<Node>, node_types: Option<Vec<NodeType>>, min_importance: Option<u32>, temporal: bool) -> bool {
        forall|k: int| 0 <= k < seen.len() ==> self.kept_node(#[trigger] seen[k], node_types, min_importance, temporal) ==> found_in(rs, seen[k])
    }

    proof fn lemma_covers_step(&self, seen: Seq<Seq<char>>, rs_old: Seq<Node>, rs_new: Seq<Node>, id: Seq<char>, node_types: Option<Vec<NodeType>>, min_importance: Option<u32>, temporal: bool)
        requires
            self.covers(seen, rs_old, node_types, min_importance, temporal),
            rs_old.len() <= rs_new.len(),
            forall|i: int| 0 <= i < rs_old.len() ==> rs_new[i] == rs_old[i],
            self.kept_node(id, node_types, min_importance, temporal) ==> found_in(rs_new, id),
        ensures
            self.covers(seen.push(id), rs_new, node_types, min_importance, temporal),
    {
        let s2 = seen.push(id);
        assert forall|k: int| 0 <= k < s2.len() implies self.kept_node(#[trigger] s2[k], node_types, min_importance, temporal) ==> found_in(rs_new, s2[k]) by {
            if k < seen.len() {
                assert(s2[k] == seen[k]);
                if self.kept_node(seen[k], node_types, min_importance, temporal) {
                    let i = choose|i: int| 0 <= i < rs_old.len() && (#[trigger] rs_old[i]).id@ == seen[k];
                    assert(rs_new[i] == rs_old[i]);
                }
            }
        }
    }


    /// The identifiers of the nodes of type `t` (all with none), in table
    /// order.
    pub closed spec fn ids_of_type(&self, t: Option<NodeType>) -> Seq<Seq<char>> {
        ids_where(self.nodes@, t)
    }

    fn node_ids(&self, t: Option<&NodeType>) -> (r: Vec<String>)
        ensures
            str_views(r@) == ids_where(self.nodes@, match t {
                Some(x) => Some(*x),
                None => None,
            }),
    {
        let ghost tt = match t {
            Some(x) => Some(*x),
            None => None,
        };
        let mut out: Vec<String> = Vec::new();
        let mut i: usize = 0;
        while i < self.nodes.len()
            invariant
                i <= self.nodes@.len(),
                tt == match t {
                    Some(x) => Some(*x),
                    None => None::<NodeType>,
                },
                str_views(out@) == ids_where(self.nodes@.take(i as int), tt),
            decreases self.nodes@.len() - i,
        {
            proof {
                assert(self.nodes@.take(i as int + 1).drop_last() =~= self.nodes@.take(i as int));
            }
            let take = match t {
                Some(x) => self.nodes[i].1.node_type.same_as(x),
                None => true,
            };
            if take {
                out.push(self.nodes[i].0.clone());
                proof {
                    assert(str_views(out@) =~= str_views(out@.drop_last()).push(out@.last()@));
                }
            }
            i = i + 1;
        }
        assert(self.nodes@.take(i as int) =~= self.nodes@);
        out
    }

    /// Run `query`: start from the nodes it names, of its type, or all of
    /// them, and traverse. Semantic starts need an embedding provider,
    /// which this graph has not.
    pub fn query(&self, query: &GraphQuery) -> (r: Result<QueryResult, MemoryGraphError>)
        requires
            self.wf(),
        ensures
            query.start is Semantic ==> (r matches Err(MemoryGraphError::QueryFailed(m)) && m@ == "No embedding provider"@),
            !(query.start is Semantic) ==> (r matches Ok(res) && {
                let starts = match query.start {
                    QueryStart::NodeIds(ids) => str_views(ids@),
                    QueryStart::ByType(t) => self.ids_of_type(Some(t)),
                    _ => self.ids_of_type(None),
                };
                &&& res.nodes@.len() <= query.limit
                &&& res.nodes@.len() == res.paths@.len()
                &&& forall|i: int, j: int| 0 <= i < j < res.nodes@.len() ==> (#[trigger] res.nodes@[i]).id@
                    != (#[trigger] res.nodes@[j]).id@
                &&& forall|i: int| 0 <= i < res.nodes@.len() ==> {
                    &&& self.node_of((#[trigger] res.nodes@[i]).id@) matches Some(n) && same_node(res.nodes@[i], n)
                    &&& passes(res.nodes@[i], query.node_types, query.min_importance_permille, query.temporal_filter)
                    &&& (query.min_importance_permille matches Some(m) ==> res.nodes@[i].importance_permille >= m)
                    &&& (query.temporal_filter ==> res.nodes@[i].temporal.is_current)
                    &&& self.walk(res.paths@[i]@, starts, query.max_depth)
                    &&& res.paths@[i]@.last()@ == res.nodes@[i].id@
                }
                &&& forall|i: int| 0 <= i < res.edges@.len() ==> (self.edge_of((#[trigger] res.edges@[i]).id@) matches Some(
                    x,
                ) && same_edge(res.edges@[i], x)) && followed(query.relationships@, res.edges@[i].relationship)
            }),
    {
        let started = crate::clock::instant_now();
        let start_ids = match &query.start {
            QueryStart::NodeIds(ids) => copy_strings(ids),
            QueryStart::Semantic { .. } => {
                return Err(MemoryGraphError::QueryFailed(to_owned_string("No embedding provider")));
            },
            QueryStart::ByType(t) => self.node_ids(Some(t)),
            QueryStart::All => self.node_ids(None),
        };
        let (nodes, edges, paths) = self.traverse(
            &start_ids,
            &query.relationships,
            query.max_depth,
            &query.node_types,
            query.min_importance_permille,
            query.temporal_filter,
            query.limit,
        );
        Ok(QueryResult { nodes, edges, paths, execution_time_ms: elapsed_millis(&started) })
    }

    /// Node `query.node_id` as it was at `query.at_time_millis`, its
    /// snapshots where asked for, and the property changes between
    /// consecutive snapshots.
    pub fn temporal_query(&self, query: &TemporalQuery) -> (r: Result<TemporalResult, MemoryGraphError>)
        requires
            self.wf(),
        ensures
            r matches Ok(res) && match query.node_id {
                None => res.current is None && res.history@.len() == 0 && res.changes@.len() == 0,
                Some(id) => {
                    let h = self.history_of(id@);
                    &&& match current_index(h, query.at_time_millis) {
                        Some(i) => res.current matches Some(c) && same_node(c, h[i].node),
                        None => res.current is None,
                    }
                    &&& query.include_history ==> res.history@.len() == h.len() && forall|i: int| 0 <= i < h.len() ==> same_node(
                        (#[trigger] res.history@[i]).node,
                        h[i].node,
                    ) && res.history@[i].timestamp_millis == h[i].timestamp_millis
                    &&& !query.include_history ==> res.history@.len() == 0
                },
            },
    {
        let id = match &query.node_id {
            Some(id) => id,
            None => {
                return Ok(TemporalResult { current: None, history: Vec::new(), changes: Vec::new() });
            },
        };
        let empty: Vec<TemporalSnapshot> = Vec::new();
        let h: &Vec<TemporalSnapshot> = match find_name(&self.snapshots, id.as_str()) {
            Some(i) => &self.snapshots[i].1,
            None => &empty,
        };
        proof {
            assert(h@ == self.history_of(id@));
        }
        let mut best: Option<usize> = None;
        let mut i: usize = 0;
        while i < h.len()
            invariant
                i <= h@.len(),
                match best {
                    Some(b) => current_index(h@.take(i as int), query.at_time_millis) == Some(b as int) && b < i,
                    None => current_index(h@.take(i as int), query.at_time_millis) is None,
                },
            decreases h@.len() - i,
        {
            proof {
                assert(h@.take(i as int + 1).drop_last() =~= h@.take(i as int));
                match best {
                    Some(b) => {
                        assert(h@.take(i as int + 1)[b as int] == h@[b as int]);
                    },
                    None => {},
                }
            }
            let t = h[i].timestamp_millis;
            let better = t <= query.at_time_millis && match best {
                Some(b) => h[b].timestamp_millis <= t,
                None => true,
            };
            if better {
                best = Some(i);
            }
            i = i + 1;
        }
        assert(h@.take(i as int) =~= h@);
        let current = match best {
            Some(b) => Some(h[b].node.duplicate()),
            None => None,
        };
        let mut history: Vec<TemporalSnapshot> = Vec::new();
        if query.include_history {
            let mut k: usize = 0;
            while k < h.len()
                invariant
                    k <= h@.len(),
                    history@.len() == k,
                    forall|j: int| 0 <= j < k ==> same_node((#[trigger] history@[j]).node, h@[j].node)
                        && history@[j].timestamp_millis == h@[j].timestamp_millis,
                decreases h@.len() - k,
            {
                history.push(TemporalSnapshot { node: h[k].node.duplicate(), timestamp_millis: h[k].timestamp_millis });
                k = k + 1;
            }
        }
        let changes = calculate_changes(h);
        Ok(TemporalResult { current, history, changes })
    }

}

} // verus!
