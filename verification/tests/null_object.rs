use drbot::null_object::{
    Maybe, NullCache, NullHandler, NullLogger, NullProvider, NullSafe, Nullable,
};

#[test]
fn test_null_logger() {
    let logger = NullLogger::new();
    assert!(logger.is_null());
    logger.log("test"); // Does nothing
}

#[test]
fn test_null_cache() {
    let cache: NullCache<String, i32> = NullCache::new();
    assert!(cache.is_null());
    assert!(cache.get(&"key".to_string()).is_none());
}

#[test]
fn test_maybe() {
    let just = Maybe::just(42);
    let null: Maybe<i32> = Maybe::null();

    assert!(just.is_just());
    assert!(null.is_null());

    assert_eq!(just.unwrap_or(0), 42);
    assert_eq!(null.unwrap_or(0), 0);
}

#[test]
fn test_maybe_map() {
    let just = Maybe::just(21);
    let result = just.map(|x| x * 2);

    assert_eq!(result, Maybe::just(42));

    let null: Maybe<i32> = Maybe::null();
    let result = null.map(|x| x * 2);
    assert!(result.is_null());
}

#[test]
fn null_object_defaults_and_conversions() {
    let provider: NullProvider<u32> = NullProvider::new();
    assert_eq!(provider.get(), 0);
    assert!(provider.is_null());
    let handler: NullHandler<String> = NullHandler::new();
    handler.handle("ignored".to_string());
    assert!(handler.is_null());
    let cache: NullCache<u8, u8> = NullCache::new();
    cache.set(1, 2);
    assert_eq!(cache.remove(&1), None);
    let m: Maybe<i32> = Some(3).into();
    assert_eq!(m, Maybe::Just(3));
    let o: Option<i32> = Maybe::<i32>::Null.into();
    assert_eq!(o, None);
    assert_eq!(Maybe::<i32>::default(), Maybe::Null);
    assert_eq!(Maybe::Just(2).and_then(|x| Maybe::Just(x + 1)), Maybe::Just(3));
    assert_eq!(Maybe::<i32>::Null.unwrap_or_else(|| 9), 9);
    assert_eq!(Maybe::Just(4).into_option(), Some(4));
    let safe: NullSafe<NullLogger> = NullSafe::null();
    assert!(safe.is_null());
    let mut wrapped = NullSafe::new(NullLogger::new());
    let _ = wrapped.inner_mut();
    assert!(wrapped.inner().is_null());
    let _logger: NullLogger = wrapped.into_inner();
    let _n = NullLogger::null();
}
