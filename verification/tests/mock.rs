use drbot::mock::{CallRecord, CallTracker, Expectation, MockContext, MockError, MockFn, ReturnQueue, Spy};

#[test]
fn test_call_tracker() {
    let mut tracker = CallTracker::new();

    tracker.record_call("foo");
    tracker.record_call("bar");
    tracker.record_call("foo");

    assert_eq!(tracker.call_count(), 3);
    assert_eq!(tracker.call_count_for("foo"), 2);
    assert_eq!(tracker.call_count_for("bar"), 1);
    assert!(tracker.was_called("foo"));
    assert!(!tracker.was_called("baz"));
}

#[test]
fn test_return_queue() {
    let mut queue: ReturnQueue<i32> = ReturnQueue::new();

    queue.will_return(1);
    queue.will_return(2);
    queue.returns_default(0);

    assert_eq!(queue.next(), Some(1));
    assert_eq!(queue.next(), Some(2));
    assert_eq!(queue.next(), Some(0));
    assert_eq!(queue.next(), Some(0));
}

#[test]
fn test_expectation() {
    let mut exp = Expectation::new("test").at_least(2).at_most(5);

    exp.record_call();
    exp.record_call();
    exp.record_call();

    assert!(exp.verify().is_ok());
}

#[test]
fn test_expectation_fail() {
    let mut exp = Expectation::new("test").times(2);

    exp.record_call();

    assert!(exp.verify().is_err());
}

#[test]
fn test_mock_fn() {
    let mut mock: MockFn<i32> = MockFn::new();
    mock.will_return(42);
    mock.will_return(43);

    assert_eq!(mock.call(), Some(42));
    assert_eq!(mock.call(), Some(43));
    assert_eq!(mock.call_count(), 2);
}

#[test]
fn mock_messages_and_context() {
    let mut exp = Expectation::new("save").at_least(2);
    exp.record_call();
    assert_eq!(
        exp.verify().unwrap_err(),
        MockError::VerificationFailed("save: expected at least 2 calls, got 1".to_string())
    );
    let mut exp = Expectation::new("load").at_most(1);
    exp.record_call();
    exp.record_call();
    assert_eq!(
        exp.verify().unwrap_err(),
        MockError::VerificationFailed("load: expected at most 1 calls, got 2".to_string())
    );
    assert!(Expectation::new("x").never().verify().is_ok());
    assert_eq!(Expectation::new("y").once().method(), "y");

    let mut ctx = MockContext::new();
    ctx.expect("a").expect("b");
    ctx.call("a");
    ctx.call("c");
    assert_eq!(ctx.tracker().call_count(), 2);
    assert!(ctx.verify().is_ok());
}

#[test]
fn mock_tracker_details() {
    let mut tracker = CallTracker::default();
    tracker.record(CallRecord::new("put").arg(7).arg("k"));
    tracker.record_call("get");
    let puts = tracker.calls_for("put");
    assert_eq!(puts.len(), 1);
    assert_eq!(puts[0].args, vec!["7".to_string(), "k".to_string()]);
    assert_eq!(tracker.all_calls().len(), 2);
    assert_eq!(
        tracker.verify_call_count("get", 2).unwrap_err(),
        MockError::WrongCallCount { expected: 2, actual: 1 }
    );
    assert!(tracker.verify_call_count("get", 1).is_ok());
    tracker.clear();
    assert_eq!(tracker.call_count(), 0);

    let mut queue: ReturnQueue<u8> = ReturnQueue::default();
    assert!(queue.is_empty());
    assert_eq!(queue.next(), None);
    queue.returns_many(vec![1, 2]);
    assert_eq!(queue.next(), Some(1));

    let mut mock: MockFn<String> = MockFn::default();
    mock.returns_default("d".to_string());
    assert!(!mock.was_called());
    assert_eq!(mock.call(), Some("d".to_string()));
    assert!(mock.verify_called(1).is_ok());

    let mut spy = Spy::new(vec![1]);
    spy.inner_mut().push(2);
    spy.record("push");
    assert_eq!(spy.inner(), &vec![1, 2]);
    assert!(spy.tracker().was_called("push"));
}
