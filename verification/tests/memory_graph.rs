use drbot::memory_graph::{
    EdgeBuilder, GraphQuery, MemoryGraph, MemoryGraphError, NodeBuilder, NodeType, QueryStart,
    RelationshipType, TemporalQuery,
};

fn query(start: QueryStart, relationships: Vec<RelationshipType>, max_depth: u32, limit: u32) -> GraphQuery {
    GraphQuery {
        start,
        relationships,
        max_depth,
        node_types: None,
        min_importance_permille: None,
        temporal_filter: false,
        limit,
    }
}

#[test]
fn test_add_node() {
    let mut graph = MemoryGraph::new();
    let node = NodeBuilder::new("Rust", NodeType::Concept)
        .property("description", serde_json::Value::from("A systems programming language"))
        .importance(800)
        .build();

    let id = graph.add_node(node).unwrap();
    let retrieved = graph.get_node(&id).unwrap();

    assert_eq!(retrieved.label, "Rust");
    assert_eq!(retrieved.importance_permille, 800);
    assert_eq!(retrieved.access_count, 1);
    assert!(graph.get_node("missing").is_none());
}

#[test]
fn test_add_edge() {
    let mut graph = MemoryGraph::new();
    let id1 = graph.add_node(NodeBuilder::new("Rust", NodeType::Concept).build()).unwrap();
    let id2 = graph.add_node(NodeBuilder::new("Memory Safety", NodeType::Concept).build()).unwrap();

    let edge = EdgeBuilder::new(&id1, &id2, RelationshipType::RelatedTo).weight(900).build();
    graph.add_edge(edge).unwrap();

    let result = graph
        .query(&query(QueryStart::NodeIds(vec![id1.clone()]), vec![RelationshipType::RelatedTo], 1, 10))
        .unwrap();
    assert_eq!(result.nodes.len(), 2);
    assert_eq!(result.edges.len(), 1);
    assert_eq!(result.paths[1], vec![id1.clone(), id2.clone()]);

    // Depth zero stays at the start; another relationship is not followed.
    let result = graph.query(&query(QueryStart::NodeIds(vec![id1.clone()]), vec![], 0, 10)).unwrap();
    assert_eq!(result.nodes.len(), 1);
    let result = graph
        .query(&query(QueryStart::NodeIds(vec![id1.clone()]), vec![RelationshipType::Causes], 3, 10))
        .unwrap();
    assert_eq!(result.nodes.len(), 1);
    assert!(result.edges.is_empty());
}

#[test]
fn edges_need_known_nodes() {
    let mut graph = MemoryGraph::new();
    let id = graph.add_node(NodeBuilder::new("A", NodeType::Entity).build()).unwrap();
    match graph.add_edge(EdgeBuilder::new(&id, "ghost", RelationshipType::IsA).build()) {
        Err(e) => assert_eq!(e.message(), "Node not found: ghost"),
        Ok(_) => panic!("expected an error"),
    }
    assert!(matches!(
        graph.add_edge(EdgeBuilder::new("nobody", &id, RelationshipType::IsA).build()),
        Err(MemoryGraphError::NodeNotFound(m)) if m == "nobody"
    ));
    assert_eq!(graph.edge_count(), 0);
}

#[test]
fn traversal_visits_once_and_respects_limit() {
    let mut graph = MemoryGraph::new();
    let a = graph.add_node(NodeBuilder::new("A", NodeType::Concept).build()).unwrap();
    let b = graph.add_node(NodeBuilder::new("B", NodeType::Concept).build()).unwrap();
    let c = graph.add_node(NodeBuilder::new("C", NodeType::Fact).build()).unwrap();
    graph.add_edge(EdgeBuilder::new(&a, &b, RelationshipType::RelatedTo).build()).unwrap();
    graph.add_edge(EdgeBuilder::new(&b, &a, RelationshipType::RelatedTo).build()).unwrap();
    graph.add_edge(EdgeBuilder::new(&b, &c, RelationshipType::Causes).build()).unwrap();

    let all = graph.query(&query(QueryStart::NodeIds(vec![a.clone()]), vec![], 5, 10)).unwrap();
    let labels: Vec<&str> = all.nodes.iter().map(|n| n.label.as_str()).collect();
    assert_eq!(labels, vec!["A", "B", "C"]);

    let limited = graph.query(&query(QueryStart::NodeIds(vec![a.clone()]), vec![], 5, 2)).unwrap();
    assert_eq!(limited.nodes.len(), 2);

    let mut only_facts = query(QueryStart::All, vec![], 0, 10);
    only_facts.node_types = Some(vec![NodeType::Fact]);
    let facts = graph.query(&only_facts).unwrap();
    assert_eq!(facts.nodes.len(), 1);
    assert_eq!(facts.nodes[0].label, "C");

    assert!(matches!(
        graph.query(&query(QueryStart::Semantic { query: "x".to_string(), top_k: 3 }, vec![], 1, 10)),
        Err(MemoryGraphError::QueryFailed(m)) if m == "No embedding provider"
    ));
}

#[test]
fn test_temporal_query() {
    let mut graph = MemoryGraph::new();
    let node = NodeBuilder::new("Version", NodeType::Fact).property("value", serde_json::Value::from("1.0")).build();
    let id = graph.add_node_at(node, 1_000).unwrap();

    graph
        .update_node_at(&id, vec![("value".to_string(), serde_json::Value::from("2.0"))], 2_000)
        .unwrap();

    let q = TemporalQuery { at_time_millis: 3_000, node_id: Some(id.clone()), semantic: None, include_history: true };
    let result = graph.temporal_query(&q).unwrap();
    assert!(result.current.is_some());
    assert_eq!(result.history.len(), 2);
    assert_eq!(result.changes.len(), 1);
    assert_eq!(result.changes[0].property, "value");
    assert_eq!(result.changes[0].changed_at_millis, 2_000);

    // At 1.5 s the first version was current.
    let earlier = TemporalQuery { at_time_millis: 1_500, node_id: Some(id.clone()), semantic: None, include_history: false };
    let result = graph.temporal_query(&earlier).unwrap();
    let current = result.current.unwrap();
    assert_eq!(current.properties[0].1, serde_json::Value::from("1.0"));
    assert!(result.history.is_empty());

    let before = TemporalQuery { at_time_millis: 500, node_id: Some(id.clone()), semantic: None, include_history: false };
    assert!(graph.temporal_query(&before).unwrap().current.is_none());
    assert!(matches!(graph.update_node("nope", Vec::new()), Err(MemoryGraphError::NodeNotFound(m)) if m == "nope"));
}

#[test]
fn test_query_by_type() {
    let mut graph = MemoryGraph::new();
    graph.add_node(NodeBuilder::new("Event1", NodeType::Event).build()).unwrap();
    graph.add_node(NodeBuilder::new("Event2", NodeType::Event).build()).unwrap();
    graph.add_node(NodeBuilder::new("Fact1", NodeType::Fact).build()).unwrap();

    let result = graph.query(&query(QueryStart::ByType(NodeType::Event), vec![], 0, 10)).unwrap();
    assert_eq!(result.nodes.len(), 2);
}

#[test]
fn test_graph_stats() {
    let mut graph = MemoryGraph::new();
    graph.add_node(NodeBuilder::new("N1", NodeType::Concept).build()).unwrap();
    graph.add_node(NodeBuilder::new("N2", NodeType::Entity).build()).unwrap();
    assert_eq!(graph.node_count(), 2);
    assert_eq!(graph.edge_count(), 0);
}

#[test]
fn test_node_builder() {
    let node = NodeBuilder::new("Test", NodeType::Fact)
        .property("key", serde_json::Value::from("value"))
        .property("key", serde_json::Value::from("other"))
        .importance(700)
        .build();

    assert_eq!(node.label, "Test");
    assert_eq!(node.importance_permille, 700);
    assert_eq!(node.properties.len(), 1);
    assert_eq!(node.properties[0].1, serde_json::Value::from("other"));
}

#[test]
fn test_edge_builder() {
    let edge = EdgeBuilder::new("a", "b", RelationshipType::Causes).weight(500).build();
    assert_eq!(edge.from, "a");
    assert_eq!(edge.to, "b");
    assert_eq!(edge.weight_permille, 500);
    assert!(RelationshipType::Custom("x".to_string()).same_as(&RelationshipType::Custom("x".to_string())));
    assert!(!NodeType::Fact.same_as(&NodeType::Event));
}

#[test]
fn traversal_edges_leave_returned_nodes() {
    let mut graph = MemoryGraph::new();
    let a = graph.add_node(NodeBuilder::new("A", NodeType::Concept).build()).unwrap();
    let b = graph.add_node(NodeBuilder::new("B", NodeType::Concept).build()).unwrap();
    let c = graph.add_node(NodeBuilder::new("C", NodeType::Fact).build()).unwrap();
    let d = graph.add_node(NodeBuilder::new("D", NodeType::Fact).build()).unwrap();
    graph.add_edge(EdgeBuilder::new(&a, &b, RelationshipType::RelatedTo).build()).unwrap();
    graph.add_edge(EdgeBuilder::new(&b, &c, RelationshipType::Causes).build()).unwrap();
    graph.add_edge(EdgeBuilder::new(&c, &d, RelationshipType::RelatedTo).build()).unwrap();
    graph.add_edge(EdgeBuilder::new(&d, &a, RelationshipType::RelatedTo).build()).unwrap();
    let r = graph.query(&query(QueryStart::NodeIds(vec![a.clone()]), vec![], 2, 10)).unwrap();
    let ids: Vec<&str> = r.nodes.iter().map(|n| n.id.as_str()).collect();
    assert_eq!(ids, vec![a.as_str(), b.as_str(), c.as_str()]);
    assert_eq!(r.edges.len(), 3);
    for e in &r.edges {
        assert!(ids.contains(&e.from.as_str()));
    }
    // the edge out of C is followed, though D lies beyond the depth
    assert_eq!(r.edges[2].to, d);
}
