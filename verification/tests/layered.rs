use drbot::layered::{HierarchicalMemory, HierarchicalMemoryConfig, LayeredMemory, MemoryStats};
use drbot::memory::{MemoryLayer, MemorySource};

fn by_importance(m: &LayeredMemory) -> u64 {
    m.importance_permille as u64
}

fn id(n: u128) -> uuid::Uuid {
    uuid::Uuid::from_u128(n)
}

#[test]
fn test_hierarchical_memory() {
    let config = HierarchicalMemoryConfig {
        working_memory_limit: 3,
        ..Default::default()
    };
    let mut memory = HierarchicalMemory::new(config);

    for i in 0..5 {
        let mem = LayeredMemory::new(&format!("Memory {}", i), MemorySource::from_session("test"))
            .with_importance(800);
        memory.remember(mem, &by_importance);
    }

    let stats = memory.stats();
    assert_eq!(stats.working_count, 3);
    assert_eq!(stats.short_term_count, 2);
}

#[test]
fn test_learn_fact() {
    let mut memory = HierarchicalMemory::new(HierarchicalMemoryConfig::default());
    memory.learn_fact("The sky is blue", MemorySource::default());
    let stats = memory.stats();
    assert_eq!(stats.long_term_semantic_count, 1);
}

#[test]
fn new_memory_defaults() {
    let m = LayeredMemory::new_at(id(7), "hello", MemorySource::default(), 1_000);
    assert_eq!(m.id, id(7));
    assert_eq!(m.layer, MemoryLayer::Working);
    assert_eq!(m.content, "hello");
    assert_eq!(m.importance_permille, 500);
    assert_eq!(m.access_count, 1);
    assert_eq!(m.expires_at_millis, Some(1_000 + 3_600_000));
    assert!(!m.should_promote());
}

#[test]
fn importance_is_clamped() {
    let m = LayeredMemory::new_at(id(1), "x", MemorySource::default(), 0).with_importance(1500);
    assert_eq!(m.importance_permille, 1000);
    let m = m.with_importance(701);
    assert!(m.should_promote());
}

#[test]
fn frequent_use_makes_a_memory_due() {
    let mut m = LayeredMemory::new_at(id(1), "x", MemorySource::default(), 0);
    for t in 1..=3 {
        m.record_access_at(t);
    }
    assert_eq!(m.access_count, 4);
    assert_eq!(m.last_accessed_millis, 3);
    assert!(m.should_promote());
}

#[test]
fn expiry_and_promotion() {
    let mut m = LayeredMemory::new_at(id(1), "x", MemorySource::default(), 0);
    assert!(!m.is_expired_at(3_600_000));
    assert!(m.is_expired_at(3_600_001));
    m.promote_at(10);
    assert_eq!(m.layer, MemoryLayer::ShortTerm);
    assert_eq!(m.expires_at_millis, Some(10 + 86_400_000));
    m.promote_at(20);
    assert_eq!(m.layer, MemoryLayer::LongTermEpisodic);
    assert_eq!(m.expires_at_millis, Some(20 + 7_776_000_000));
    m.promote_at(30);
    assert_eq!(m.layer, MemoryLayer::LongTermEpisodic);
}

#[test]
fn evicted_memories_not_due_are_dropped() {
    let config = HierarchicalMemoryConfig { working_memory_limit: 2, ..Default::default() };
    let mut memory = HierarchicalMemory::new(config);
    for i in 0..4u128 {
        let m = LayeredMemory::new_at(id(i), "m", MemorySource::default(), 0);
        memory.remember_at(m, &by_importance, 0);
    }
    let stats = memory.stats();
    assert_eq!(stats.working_count, 2);
    assert_eq!(stats.short_term_count, 0);
    let ids: Vec<uuid::Uuid> = memory.working_memory().iter().map(|m| m.id).collect();
    assert_eq!(ids, vec![id(2), id(3)]);
}

#[test]
fn full_short_term_keeps_the_highest_ranked() {
    let config = HierarchicalMemoryConfig {
        working_memory_limit: 1,
        short_term_limit: 2,
        ..Default::default()
    };
    let mut memory = HierarchicalMemory::new(config);
    let importances = [900u32, 820, 850, 500];
    for (i, imp) in importances.iter().enumerate() {
        let m = LayeredMemory::new_at(id(i as u128), "m", MemorySource::default(), 0).with_importance(*imp);
        memory.remember_at(m, &by_importance, 5);
    }
    let short: Vec<uuid::Uuid> = memory.memories_in(MemoryLayer::ShortTerm).iter().map(|m| m.id).collect();
    assert_eq!(short, vec![id(0), id(2)]);
    let episodic = memory.memories_in(MemoryLayer::LongTermEpisodic);
    assert_eq!(episodic.len(), 1);
    assert_eq!(episodic[0].id, id(1));
    assert_eq!(episodic[0].layer, MemoryLayer::LongTermEpisodic);
    assert_eq!(episodic[0].expires_at_millis, Some(5 + 7_776_000_000));
    assert_eq!(memory.stats().working_count, 1);
}

#[test]
fn consolidation_promotes_expired_important_memories() {
    let mut memory = HierarchicalMemory::new(HierarchicalMemoryConfig::default());
    let important = LayeredMemory::new_at(id(1), "keep", MemorySource::default(), 0).with_importance(900);
    let plain = LayeredMemory::new_at(id(2), "drop", MemorySource::default(), 0);
    let fresh = LayeredMemory::new_at(id(3), "fresh", MemorySource::default(), 3_000_000);
    memory.remember_at(important, &by_importance, 0);
    memory.remember_at(plain, &by_importance, 0);
    memory.remember_at(fresh, &by_importance, 3_000_000);

    memory.consolidate_at(&by_importance, 4_000_000);

    let working: Vec<uuid::Uuid> = memory.working_memory().iter().map(|m| m.id).collect();
    assert_eq!(working, vec![id(3)]);
    let short = memory.memories_in(MemoryLayer::ShortTerm);
    assert_eq!(short.len(), 1);
    assert_eq!(short[0].id, id(1));
    assert_eq!(short[0].layer, MemoryLayer::ShortTerm);
    let episodic = memory.memories_in(MemoryLayer::LongTermEpisodic);
    assert_eq!(episodic.len(), 1);
    assert_eq!(episodic[0].id, id(1));
    assert_eq!(episodic[0].layer, MemoryLayer::LongTermEpisodic);
    assert_eq!(episodic[0].expires_at_millis, Some(4_000_000 + 7_776_000_000));
}

#[test]
fn consolidation_drops_expired_episodic_memories() {
    let config = HierarchicalMemoryConfig { working_memory_limit: 1, ..Default::default() };
    let mut memory = HierarchicalMemory::new(config);
    let a = LayeredMemory::new_at(id(1), "a", MemorySource::default(), 0).with_importance(900);
    let b = LayeredMemory::new_at(id(2), "b", MemorySource::default(), 0);
    memory.remember_at(a, &by_importance, 0);
    memory.remember_at(b, &by_importance, 0);
    assert_eq!(memory.stats().short_term_count, 1);
    // the short-term memory stays while due, and each consolidation copies
    // it on; an episodic copy expires after ninety days
    memory.consolidate_at(&by_importance, 100_000_000);
    assert_eq!(memory.memories_in(MemoryLayer::LongTermEpisodic).len(), 1);
    let later = 100_000_000 + 7_776_000_001;
    memory.consolidate_at(&by_importance, later);
    let episodic = memory.memories_in(MemoryLayer::LongTermEpisodic);
    assert_eq!(episodic.len(), 1);
    assert_eq!(episodic[0].expires_at_millis, Some(later + 7_776_000_000));
    assert_eq!(memory.stats().short_term_count, 1);
}

#[test]
fn access_is_recorded_once_in_search_order() {
    let mut memory = HierarchicalMemory::new(HierarchicalMemoryConfig::default());
    memory.learn_fact_at(id(9), "fact", MemorySource::default(), 0);
    let m = LayeredMemory::new_at(id(9), "working", MemorySource::default(), 0);
    memory.remember_at(m, &by_importance, 0);
    memory.record_access_at(id(9), 42);
    assert_eq!(memory.memories_in(MemoryLayer::Working)[0].access_count, 2);
    assert_eq!(memory.memories_in(MemoryLayer::Working)[0].last_accessed_millis, 42);
    assert_eq!(memory.memories_in(MemoryLayer::LongTermSemantic)[0].access_count, 1);
    memory.record_access_at(id(10), 43);
    assert_eq!(memory.memories_in(MemoryLayer::Working)[0].access_count, 2);
}

#[test]
fn procedural_memory_is_not_searched_for_access() {
    let mut memory = HierarchicalMemory::new(HierarchicalMemoryConfig::default());
    memory.learn_procedure_at(id(4), "deploy", "run the script", MemorySource::default(), 0);
    memory.record_access_at(id(4), 1);
    let p = &memory.memories_in(MemoryLayer::Procedural)[0];
    assert_eq!(p.access_count, 1);
    assert_eq!(p.tags, vec!["deploy".to_string()]);
    assert_eq!(p.importance_permille, 900);
    assert_eq!(p.expires_at_millis, None);
}

#[test]
fn clearing_working_memory_and_stats() {
    let mut memory = HierarchicalMemory::new(HierarchicalMemoryConfig::default());
    memory.remember_at(LayeredMemory::new_at(id(1), "a", MemorySource::default(), 0), &by_importance, 0);
    memory.learn_fact("f", MemorySource::default());
    memory.learn_procedure("p", "do", MemorySource::default());
    let stats = memory.stats();
    assert_eq!(stats.total(), 3);
    memory.clear_working();
    assert_eq!(memory.stats().working_count, 0);
    assert_eq!(memory.stats().total(), 2);
    let s = MemoryStats {
        working_count: 1,
        short_term_count: 2,
        long_term_episodic_count: 3,
        long_term_semantic_count: 4,
        procedural_count: 5,
    };
    assert_eq!(s.total(), 15);
}
