use drbot::multimap::{MultiMap, MultiMapSet};

#[test]
fn test_multimap() {
    let mut map = MultiMap::new();
    map.insert("key", 1);
    map.insert("key", 2);
    map.insert("key", 1);

    assert_eq!(map.get(&"key"), Some(&vec![1, 2, 1]));
    assert_eq!(map.total_values(), 3);
}

#[test]
fn test_multimap_remove() {
    let mut map = MultiMap::new();
    map.insert("key", 1);
    map.insert("key", 2);

    assert!(map.remove_value(&"key", &1));
    assert_eq!(map.get(&"key"), Some(&vec![2]));
}

#[test]
fn test_multimap_set() {
    let mut map = MultiMapSet::new();
    assert!(map.insert("key", 1));
    assert!(map.insert("key", 2));
    assert!(!map.insert("key", 1));

    assert_eq!(map.total_values(), 2);
    assert!(map.contains(&"key", &1));
}

#[test]
fn test_flat_iter() {
    let mut map = MultiMap::new();
    map.insert("a", 1);
    map.insert("a", 2);
    map.insert("b", 3);

    let pairs = map.flat_iter();
    assert_eq!(pairs.len(), 3);
    assert_eq!(pairs[0], (&"a", &1));
    assert_eq!(pairs[2], (&"b", &3));
}

#[test]
fn multimap_new_is_empty() {
    let map: MultiMap<u8, u8> = MultiMap::new();
    assert!(map.is_empty());
    assert_eq!(map.len(), 0);
    assert_eq!(map.total_values(), 0);
}

#[test]
fn multimap_keys_in_first_insertion_order() {
    let mut map = MultiMap::new();
    map.insert(3u8, 10u8);
    map.insert(1u8, 20u8);
    map.insert(3u8, 30u8);
    assert_eq!(map.keys(), vec![&3u8, &1u8]);
    assert_eq!(map.values(), vec![&10u8, &30u8, &20u8]);
    assert_eq!(map.get_first(&3), Some(&10));
    assert_eq!(map.get_last(&3), Some(&30));
    assert_eq!(map.get_first(&7), None);
}

#[test]
fn multimap_remove_last_value_removes_key() {
    let mut map = MultiMap::new();
    map.insert(5u8, 9u8);
    assert!(map.remove_value(&5, &9));
    assert!(!map.contains_key(&5));
    assert!(map.is_empty());
    assert!(!map.remove_value(&5, &9));
}

#[test]
fn multimap_remove_returns_all_values() {
    let mut map = MultiMap::new();
    map.insert(1u8, 2u8);
    map.insert(1u8, 3u8);
    map.insert(4u8, 5u8);
    assert_eq!(map.remove(&1), Some(vec![2, 3]));
    assert_eq!(map.remove(&1), None);
    assert_eq!(map.len(), 1);
    map.clear();
    assert!(map.is_empty());
}

#[test]
fn multimap_get_mut_changes_values() {
    let mut map = MultiMap::new();
    map.insert(1u8, 2u8);
    if let Some(vs) = map.get_mut(&1) {
        vs.push(7);
    }
    assert_eq!(map.get(&1), Some(&vec![2, 7]));
    assert!(map.get_mut(&9).is_none());
}

#[test]
fn multimap_from_pairs_and_iter() {
    let map = MultiMap::from_pairs(vec![(1u8, 1u8), (2u8, 2u8), (1u8, 3u8)]);
    let entries = map.iter();
    assert_eq!(entries.len(), 2);
    assert_eq!(entries[0], (&1u8, &vec![1u8, 3u8]));
    assert_eq!(entries[1], (&2u8, &vec![2u8]));
}

#[test]
fn multimap_set_remove_value_and_key() {
    let mut map = MultiMapSet::new();
    map.insert(1u8, 10u8);
    map.insert(1u8, 20u8);
    assert!(map.remove_value(&1, &10));
    assert!(!map.contains(&1, &10));
    assert!(map.contains(&1, &20));
    assert_eq!(map.total_values(), 1);
    assert!(map.remove_value(&1, &20));
    assert!(!map.contains_key(&1));
    assert!(map.is_empty());
    assert!(!map.remove_value(&1, &20));
}

#[test]
fn multimap_set_remove_and_clear() {
    let mut map = MultiMapSet::new();
    map.insert(1u8, 10u8);
    map.insert(1u8, 20u8);
    map.insert(2u8, 30u8);
    assert_eq!(map.remove(&1).map(|v| v.len()), Some(2));
    assert!(!map.contains_key(&1));
    assert_eq!(map.keys(), vec![&2u8]);
    assert_eq!(map.get(&2), Some(&vec![30u8]));
    assert_eq!(map.iter().len(), 1);
    map.clear();
    assert_eq!(map.len(), 0);
    assert_eq!(map.total_values(), 0);
}
