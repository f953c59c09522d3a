use drbot::mediator::{handler, ChatRoom, EventMediator, FnHandler, MediatorError, RequestHandler, RequestMediator};
use std::sync::atomic::{AtomicI32, Ordering};
use std::sync::{Arc, Mutex};

#[test]
fn test_event_mediator() {
    let counter = Arc::new(AtomicI32::new(0));
    let counter_clone = counter.clone();

    let mut mediator = EventMediator::<i32>::new();
    mediator.subscribe("increment", move |n| {
        counter_clone.fetch_add(n, Ordering::SeqCst);
    });

    mediator.publish("increment", 5);
    mediator.publish("increment", 3);

    assert_eq!(counter.load(Ordering::SeqCst), 8);
}

#[test]
fn test_request_mediator() {
    let mut mediator = RequestMediator::new();
    mediator.register("double", handler(|x: i32| Ok(x * 2)));

    assert_eq!(mediator.send("double", 21).unwrap(), 42);
    assert!(mediator.send("missing", 1).is_err());
}

#[test]
fn test_chat_room() {
    let messages = Arc::new(Mutex::new(Vec::new()));
    let messages_clone = messages.clone();

    let mut chat = ChatRoom::new();
    chat.add_participant("alice", move |from, msg| {
        messages_clone.lock().unwrap().push(format!("{}: {}", from, msg));
    });
    chat.add_participant("bob", |_, _| {});

    chat.send_message("bob", "alice", "Hello!").unwrap();

    let msgs = messages.lock().unwrap();
    assert_eq!(msgs.len(), 1);
    assert_eq!(msgs[0], "bob: Hello!");
}

#[test]
fn mediator_events_counts_and_clear() {
    let seen = Arc::new(Mutex::new(Vec::new()));
    let s1 = seen.clone();
    let s2 = seen.clone();
    let mut m = EventMediator::<String>::default();
    m.subscribe("a", move |e: String| s1.lock().unwrap().push(format!("1{}", e)));
    m.subscribe("a", move |e: String| s2.lock().unwrap().push(format!("2{}", e)));
    assert_eq!(m.subscriber_count("a"), 2);
    assert_eq!(m.subscriber_count("b"), 0);
    m.publish("a", "x".to_string());
    m.publish("b", "y".to_string());
    assert_eq!(*seen.lock().unwrap(), vec!["1x".to_string(), "2x".to_string()]);
    m.clear();
    assert_eq!(m.subscriber_count("a"), 0);
}

#[test]
fn mediator_requests_replace_and_names() {
    let mut m: RequestMediator<i32, i32> = RequestMediator::default();
    m.register("f", handler(|x: i32| Ok(x + 1)));
    m.register("g", handler(|_x: i32| Err(MediatorError::InvalidRequest)));
    m.register("f", handler(|x: i32| Ok(x + 100)));
    assert!(m.has_handler("f"));
    assert!(!m.has_handler("h"));
    assert_eq!(m.handler_names(), vec!["f".to_string(), "g".to_string()]);
    assert_eq!(m.send("f", 1).unwrap(), 101);
    assert_eq!(m.send("g", 1).unwrap_err(), MediatorError::InvalidRequest);
    match m.send("h", 1) {
        Err(MediatorError::HandlerNotFound(n)) => assert_eq!(n, "h"),
        other => panic!("unexpected {:?}", other),
    }
    assert_eq!(
        MediatorError::HandlerNotFound("h".to_string()).message(),
        "Handler not found: h"
    );
    let direct = FnHandler::new(|x: u8| Ok(x));
    assert_eq!(direct.handle(7).unwrap(), 7);
}

#[test]
fn mediator_chat_broadcast_and_leave() {
    let log = Arc::new(Mutex::new(Vec::new()));
    let mut room = ChatRoom::default();
    for name in ["ann", "ben", "cat"] {
        let l = log.clone();
        let me = name.to_string();
        room.add_participant(name, move |from, msg| {
            l.lock().unwrap().push(format!("{}<-{}:{}", me, from, msg));
        });
    }
    assert_eq!(room.participant_count(), 3);
    room.broadcast("ben", "hi");
    let mut got = log.lock().unwrap().clone();
    got.sort();
    assert_eq!(got, vec!["ann<-ben:hi".to_string(), "cat<-ben:hi".to_string()]);
    room.remove_participant("cat");
    assert_eq!(room.participant_count(), 2);
    assert!(room.send_message("ann", "cat", "x").is_err());
}
