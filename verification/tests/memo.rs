use drbot::memo::{TtlMemo, memoize_fn, memoize_lru, memoize_ttl, Memo, Memo2, MemoError};
use std::sync::atomic::{AtomicI32, Ordering};
use std::sync::Arc;
use std::time::Duration;

#[test]
fn test_memo() {
    let call_count = Arc::new(AtomicI32::new(0));
    let cc = call_count.clone();

    let mut memo = memoize_fn(move |x: i32| {
        cc.fetch_add(1, Ordering::SeqCst);
        x * 2
    });

    assert_eq!(memo.call(21), 42);
    assert_eq!(call_count.load(Ordering::SeqCst), 1);

    assert_eq!(memo.call(21), 42);
    assert_eq!(call_count.load(Ordering::SeqCst), 1);

    assert_eq!(memo.call(10), 20);
    assert_eq!(call_count.load(Ordering::SeqCst), 2);
}

#[test]
fn test_lru_memo() {
    let mut memo = memoize_lru(|x: i32| x * 2, 2);

    memo.call(1);
    memo.call(2);
    assert_eq!(memo.cache_size(), 2);

    memo.call(3);
    assert_eq!(memo.cache_size(), 2);
}

#[test]
fn test_memo2() {
    let mut memo = Memo2::new(|a: i32, b: i32| a + b);

    assert_eq!(memo.call(10, 32), 42);
    assert_eq!(memo.call(10, 32), 42);
}

#[test]
fn memo_invalidate_and_clear() {
    let count = Arc::new(AtomicI32::new(0));
    let c = count.clone();
    let mut memo = Memo::new(move |s: String| {
        c.fetch_add(1, Ordering::SeqCst);
        s.len()
    });
    assert_eq!(memo.call("abc".to_string()), 3);
    assert_eq!(memo.call("abc".to_string()), 3);
    assert_eq!(count.load(Ordering::SeqCst), 1);
    memo.invalidate(&"abc".to_string());
    assert_eq!(memo.cache_size(), 0);
    assert_eq!(memo.call("abc".to_string()), 3);
    assert_eq!(count.load(Ordering::SeqCst), 2);
    memo.clear();
    assert_eq!(memo.cache_size(), 0);
}

#[test]
fn memo_lru_evicts_least_recently_used() {
    let count = Arc::new(AtomicI32::new(0));
    let c = count.clone();
    let mut memo = memoize_lru(
        move |x: u8| {
            c.fetch_add(1, Ordering::SeqCst);
            x as u32 + 100
        },
        2,
    );
    assert_eq!(memo.call(1), 101);
    assert_eq!(memo.call(2), 102);
    assert_eq!(memo.call(1), 101);
    assert_eq!(count.load(Ordering::SeqCst), 2);
    assert_eq!(memo.call(3), 103);
    assert_eq!(memo.cache_size(), 2);
    assert_eq!(memo.call(1), 101);
    assert_eq!(count.load(Ordering::SeqCst), 3);
    assert_eq!(memo.call(2), 102);
    assert_eq!(count.load(Ordering::SeqCst), 4);
    memo.clear();
    assert_eq!(memo.cache_size(), 0);
}

#[test]
fn memo_ttl_keeps_young_results() {
    let count = Arc::new(AtomicI32::new(0));
    let c = count.clone();
    let mut memo = memoize_ttl(
        move |x: u64| {
            c.fetch_add(1, Ordering::SeqCst);
            x + 1
        },
        Duration::from_secs(3600),
    );
    assert_eq!(memo.call(1), 2);
    assert_eq!(memo.call(1), 2);
    assert_eq!(count.load(Ordering::SeqCst), 1);
    memo.cleanup();
    assert_eq!(memo.call(1), 2);
    assert_eq!(count.load(Ordering::SeqCst), 1);
    let mut stale = memoize_ttl(|x: u64| x * 3, Duration::from_secs(0));
    assert_eq!(stale.call(2), 6);
    stale.cleanup();
    assert_eq!(stale.call(2), 6);
    stale.clear();
    assert_ne!(MemoError::CacheMiss, MemoError::ComputationFailed("x".to_string()));
}

#[test]
fn memo_ttl_decides_by_age() {
    let count = Arc::new(AtomicI32::new(0));
    let c = count.clone();
    let mut memo = TtlMemo::new_nanos(
        move |x: u64| {
            c.fetch_add(1, Ordering::SeqCst);
            x * 10
        },
        1000,
    );
    let now = std::time::Instant::now();
    assert_eq!(memo.call_aged(4, 0, now), 40);
    assert_eq!(count.load(Ordering::SeqCst), 1);
    assert_eq!(memo.call_aged(4, 999, now), 40);
    assert_eq!(count.load(Ordering::SeqCst), 1);
    assert_eq!(memo.call_aged(4, 1000, now), 40);
    assert_eq!(count.load(Ordering::SeqCst), 2);
}
