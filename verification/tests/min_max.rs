use drbot::min_max::{
    argmax, argmin, argminmax, max, max3, max_by, max_by_key, min, min3, min_by, min_by_key,
    minmax, slice_max, slice_min, slice_minmax, MinMaxTracker,
};

#[test]
fn test_min_max() {
    assert_eq!(min(3, 5), 3);
    assert_eq!(max(3, 5), 5);
    assert_eq!(min3(3, 1, 5), 1);
    assert_eq!(max3(3, 1, 5), 5);
}

#[test]
fn test_minmax() {
    assert_eq!(minmax(5, 3), (3, 5));
    assert_eq!(minmax(3, 5), (3, 5));
}

#[test]
fn test_slice_minmax() {
    let items = [3, 1, 4, 1, 5, 9, 2, 6];
    assert_eq!(slice_min(&items), Some(&1));
    assert_eq!(slice_max(&items), Some(&9));
    assert_eq!(slice_minmax(&items), Some((&1, &9)));
}

#[test]
fn test_tracker() {
    let mut tracker = MinMaxTracker::new();
    tracker.update(5);
    tracker.update(2);
    tracker.update(8);

    assert_eq!(tracker.min(), Some(&2));
    assert_eq!(tracker.max(), Some(&8));
    assert_eq!(tracker.count(), 3);
}

#[test]
fn test_argmin_argmax() {
    let items = [3, 1, 4, 1, 5];
    assert_eq!(argmin(&items), Some(1));
    assert_eq!(argmax(&items), Some(4));
    assert_eq!(argminmax(&items), Some((1, 4)));
}

#[test]
fn min_max_ties_and_empty() {
    let empty: [i64; 0] = [];
    assert_eq!(slice_min(&empty), None);
    assert_eq!(argmin(&empty), None);
    assert_eq!(argminmax(&empty), None);
    // argmax reports the last maximum, argminmax the first one
    let items = [7, 2, 7, 2];
    assert_eq!(argmax(&items), Some(2));
    assert_eq!(argminmax(&items), Some((1, 0)));
    assert_eq!(argmin(&items), Some(1));
}

#[test]
fn min_max_by_key_and_comparator() {
    assert_eq!(min_by_key(-5i64, 3i64, |x: &i64| x.abs()), 3);
    assert_eq!(max_by_key(-5i64, 3i64, |x: &i64| x.abs()), -5);
    assert_eq!(min_by(2, 2, |a: &i64, b: &i64| a.cmp(b)), 2);
    assert_eq!(max_by("a", "b", |a: &&str, b: &&str| a.len().cmp(&b.len())), "a");
}

#[test]
fn min_max_tracker_reset_and_minmax() {
    let mut tracker = MinMaxTracker::default();
    assert!(tracker.is_empty());
    assert_eq!(tracker.minmax(), None);
    tracker.update(-3);
    tracker.update(4);
    assert_eq!(tracker.minmax(), Some((&-3, &4)));
    tracker.reset();
    assert_eq!(tracker.count(), 0);
    assert_eq!(tracker.min(), None);
}

#[derive(Debug, Clone, Copy)]
struct Keyed {
    key: u8,
    tag: char,
}

impl PartialEq for Keyed {
    fn eq(&self, other: &Self) -> bool {
        self.key == other.key
    }
}

impl Eq for Keyed {}

impl PartialOrd for Keyed {
    fn partial_cmp(&self, other: &Self) -> Option<std::cmp::Ordering> {
        Some(self.cmp(other))
    }
}

impl Ord for Keyed {
    fn cmp(&self, other: &Self) -> std::cmp::Ordering {
        self.key.cmp(&other.key)
    }
}

#[test]
fn min_max_over_any_ordered_type() {
    assert_eq!(min("pear", "apple"), "apple");
    assert_eq!(max3('a', 'z', 'm'), 'z');
    let words = ["kiwi", "fig", "plum", "fig"];
    assert_eq!(slice_min(&words), Some(&"fig"));
    assert_eq!(argmax(&words), Some(2));
    // ties: the first least and the last greatest element come back
    let items = [
        Keyed { key: 2, tag: 'a' },
        Keyed { key: 1, tag: 'b' },
        Keyed { key: 2, tag: 'c' },
        Keyed { key: 1, tag: 'd' },
    ];
    assert_eq!(slice_min(&items).map(|k| k.tag), Some('b'));
    assert_eq!(slice_max(&items).map(|k| k.tag), Some('c'));
    assert_eq!(slice_minmax(&items).map(|(lo, hi)| (lo.tag, hi.tag)), Some(('b', 'a')));
    assert_eq!(min(items[0], items[2]).tag, 'a');
    assert_eq!(max(items[0], items[2]).tag, 'a');
    assert_eq!(minmax(items[0], items[2]).1.tag, 'c');
    let mut tracker = MinMaxTracker::new();
    tracker.update(String::from("m"));
    tracker.update(String::from("b"));
    tracker.update(String::from("x"));
    assert_eq!(tracker.minmax(), Some((&String::from("b"), &String::from("x"))));
}
