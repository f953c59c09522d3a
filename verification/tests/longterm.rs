use drbot::longterm::{longterm_metadata, longterm_record, memory_to_longterm, LongTermMemory, MemoryConsolidator};
use drbot::memory::{Importance, MemoryCategory};

fn bits(v: &[f32]) -> Vec<u32> {
    v.iter().map(|x| x.to_bits()).collect()
}

fn cosine(a: &[u32], b: &[u32]) -> f32 {
    let a: Vec<f32> = a.iter().map(|x| f32::from_bits(*x)).collect();
    let b: Vec<f32> = b.iter().map(|x| f32::from_bits(*x)).collect();
    if a.len() != b.len() {
        return 0.0;
    }
    let dot: f32 = a.iter().zip(b.iter()).map(|(x, y)| x * y).sum();
    let na: f32 = a.iter().map(|x| x * x).sum::<f32>().sqrt();
    let nb: f32 = b.iter().map(|x| x * x).sum::<f32>().sqrt();
    if na == 0.0 || nb == 0.0 {
        0.0
    } else {
        dot / (na * nb)
    }
}

fn closeness(ms: &[LongTermMemory], threshold_permille: u32) -> Vec<Vec<bool>> {
    let t = threshold_permille as f32 / 1000.0;
    ms.iter()
        .map(|a| {
            ms.iter()
                .map(|b| match (&a.embedding_bits, &b.embedding_bits) {
                    (Some(x), Some(y)) => cosine(x, y) >= t,
                    _ => false,
                })
                .collect()
        })
        .collect()
}

#[test]
fn longterm_test_memory_creation() {
    let mem = LongTermMemory::new("user1", "User likes coffee")
        .with_category(MemoryCategory::Preference)
        .with_importance(Importance::High)
        .with_tag("food");
    assert_eq!(mem.user_id, "user1");
    assert_eq!(mem.category, MemoryCategory::Preference);
    assert_eq!(mem.importance, Importance::High);
    assert!(mem.tags.contains(&"food".to_string()));
}

#[test]
fn test_consolidator_grouping() {
    let consolidator = MemoryConsolidator::new().with_threshold(900);
    let memories = vec![
        LongTermMemory::new("u1", "test1")
            .with_category(MemoryCategory::Fact)
            .with_embedding(bits(&[1.0, 0.0, 0.0])),
        LongTermMemory::new("u1", "test2")
            .with_category(MemoryCategory::Fact)
            .with_embedding(bits(&[0.99, 0.01, 0.0])),
        LongTermMemory::new("u1", "test3")
            .with_category(MemoryCategory::Fact)
            .with_embedding(bits(&[0.0, 1.0, 0.0])),
    ];
    let close = closeness(&memories, consolidator.group_threshold_permille);
    let groups = consolidator.find_groups(&memories, &close);
    assert_eq!(groups.len(), 1);
    assert_eq!(groups[0].len(), 2);
}

#[test]
fn grouping_needs_category_embedding_and_room() {
    let same = bits(&[1.0, 0.0]);
    let mut c = MemoryConsolidator::new();
    c.max_merge_count = 2;
    let memories = vec![
        LongTermMemory::new("u", "a").with_category(MemoryCategory::Fact).with_embedding(same.clone()),
        LongTermMemory::new("u", "b").with_category(MemoryCategory::Task).with_embedding(same.clone()),
        LongTermMemory::new("u", "c").with_category(MemoryCategory::Fact),
        LongTermMemory::new("u", "d").with_category(MemoryCategory::Fact).with_embedding(same.clone()),
        LongTermMemory::new("u", "e").with_category(MemoryCategory::Fact).with_embedding(same.clone()),
        LongTermMemory::new("u", "f").with_category(MemoryCategory::Fact).with_embedding(same.clone()),
    ];
    let all = vec![vec![true; 6]; 6];
    let groups = c.find_groups(&memories, &all);
    assert_eq!(groups, vec![vec![0, 3], vec![4, 5]]);
}

#[test]
fn builders_and_access() {
    let id = uuid::Uuid::from_u128(5);
    let other = uuid::Uuid::from_u128(6);
    let mut m = LongTermMemory::new_at(id, "u", "x", 100)
        .with_confidence(2000)
        .from_session("s1")
        .with_related(other)
        .with_related(other);
    assert_eq!(m.confidence_permille, 1000);
    assert_eq!(m.source_session, Some("s1".to_string()));
    assert_eq!(m.related_memories, vec![other]);
    assert_eq!(m.access_count, 0);
    m.record_access_at(250);
    assert_eq!(m.access_count, 1);
    assert_eq!(m.last_accessed_millis, 250);
    assert_eq!(m.created_at_millis, 100);
    let m = m.with_confidence(400);
    assert_eq!(m.confidence_permille, 400);
}

#[test]
fn summary_of_a_group() {
    let c = MemoryConsolidator::new();
    let a = LongTermMemory::new("alice", "likes tea")
        .with_importance(Importance::High)
        .with_confidence(900)
        .with_tag("drink");
    let b = LongTermMemory::new("bob", "likes coffee")
        .with_importance(Importance::Low)
        .with_confidence(600);
    let s = c.create_summary(&[&a, &b], "likes hot drinks", None);
    assert_eq!(s.user_id, "alice");
    assert_eq!(s.content, "likes hot drinks");
    assert_eq!(s.category, MemoryCategory::Summary);
    assert_eq!(s.importance, Importance::High);
    assert_eq!(s.confidence_permille, 750);
    assert_eq!(s.tags, vec!["consolidated".to_string()]);
    assert!(s.related_memories.is_empty());
    assert_eq!(s.embedding_bits, Some(Vec::new()));
    let s2 = c.create_summary_at(uuid::Uuid::from_u128(3), 9, &[&b], "x", Some(vec![1, 2]));
    assert_eq!(s2.id, uuid::Uuid::from_u128(3));
    assert_eq!(s2.importance, Importance::Low);
    assert_eq!(s2.confidence_permille, 600);
    assert_eq!(s2.embedding_bits, Some(vec![1, 2]));
    assert_eq!(s2.created_at_millis, 9);
}

#[test]
fn stored_longterm_memory_reads_back() {
    let related = uuid::Uuid::from_u128(77);
    let mem = LongTermMemory::new_at(uuid::Uuid::from_u128(1), "user1", "User prefers dark mode", 1_700_000_000_000)
        .with_category(MemoryCategory::Preference)
        .with_importance(Importance::High)
        .with_confidence(800)
        .with_tag("ui")
        .with_related(related)
        .from_session("s9");
    let md = longterm_metadata(&mem);
    assert_eq!(md.kind.as_deref(), Some("longterm"));
    assert_eq!(md.category.as_deref(), Some("preference"));
    assert_eq!(md.importance, Some(3));
    let record = longterm_record(&mem, serde_json::Value::Null);
    assert_eq!(record.session_id, "__longterm__user1");
    assert_eq!(record.role, "memory");
    let back = memory_to_longterm(&record, &md).unwrap();
    assert_eq!(back.content, "User prefers dark mode");
    assert_eq!(back.category, MemoryCategory::Preference);
    assert_eq!(back.importance, Importance::High);
    assert_eq!(back.user_id, "user1");
    assert_eq!(back.related_memories, vec![related]);
    assert_eq!(back.tags, vec!["ui".to_string()]);
    assert_eq!(back.last_accessed_millis, 1_700_000_000_000);
    assert_eq!(back.source_session, Some("s9".to_string()));
}

#[test]
fn unmarked_entries_are_not_longterm() {
    let mem = LongTermMemory::new_at(uuid::Uuid::from_u128(2), "u", "x", 0);
    let mut md = longterm_metadata(&mem);
    let record = longterm_record(&mem, serde_json::Value::Null);
    md.kind = Some("other".to_string());
    assert!(memory_to_longterm(&record, &md).is_none());
    let mut md = longterm_metadata(&mem);
    md.importance = None;
    assert!(memory_to_longterm(&record, &md).is_none());
    let md = longterm_metadata(&mem);
    let mut wrong_session = longterm_record(&mem, serde_json::Value::Null);
    wrong_session.session_id = "plain".to_string();
    assert!(memory_to_longterm(&wrong_session, &md).is_none());
}
