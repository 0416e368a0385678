use orchestrator::models::GroupResourceType;
use orchestrator::resource::BaseResource;
use orchestrator::watch::{
    frame_event, stream_step, EventBroker, StreamStep, WatchEvent, WatchStream, WrappedWatchEvent,
    POLL_TIMEOUT_SECONDS,
};
use std::sync::mpsc::{channel, Receiver};

fn kind(group: &str, resource_type: &str) -> GroupResourceType {
    GroupResourceType::new(group.to_string(), resource_type.to_string()).unwrap()
}

fn added(name: &str) -> WatchEvent {
    let body = format!("{{\"metadata\":{{\"name\":\"{}\"}}}}", name);
    WatchEvent::ADDED(BaseResource::from_json(body.as_bytes()).unwrap())
}

fn event(name: &str, group: &str, resource_type: &str) -> WrappedWatchEvent {
    WrappedWatchEvent::new(added(name), kind(group, resource_type))
}

fn names(receiver: &Receiver<WatchEvent>) -> Vec<String> {
    let mut names = Vec::new();
    while let Ok(WatchEvent::ADDED(resource)) = receiver.try_recv() {
        names.push(resource.metadata.name.unwrap());
    }
    names
}

#[test]
fn an_event_is_framed_as_one_line() {
    let line = frame_event(&added("foo"));
    assert_eq!(line, b"{\"type\":\"ADDED\",\"object\":{\"metadata\":{\"name\":\"foo\"}}}\n".to_vec());
}

#[test]
fn line_feeds_inside_the_document_are_left_out() {
    let body = b"{\n  \"metadata\": {\n    \"name\": \"foo\"\n  }\n}\n";
    let line = frame_event(&WatchEvent::ADDED(BaseResource::from_json(body).unwrap()));
    assert_eq!(
        line,
        b"{\"type\":\"ADDED\",\"object\":{  \"metadata\": {    \"name\": \"foo\"  }}}\n".to_vec()
    );
    assert_eq!(line.iter().filter(|b| **b == b'\n').count(), 1);
    assert_eq!(line.last(), Some(&b'\n'));
}

#[test]
fn a_copy_of_an_event_holds_the_same() {
    let original = added("foo");
    let copy = original.clone();
    assert_eq!(frame_event(&copy), frame_event(&original));
}

#[test]
fn a_received_event_becomes_a_ready_line() {
    match stream_step(Some(added("foo"))) {
        StreamStep::Ready(line) => assert_eq!(line, frame_event(&added("foo"))),
        StreamStep::Pending => panic!("an event was received"),
    }
    assert!(matches!(stream_step(None), StreamStep::Pending));
}

#[test]
fn a_stream_yields_the_events_of_its_channel_in_order() {
    let (tx, rx) = channel();
    let stream = WatchStream::new(rx);
    tx.send(added("first")).unwrap();
    tx.send(added("second")).unwrap();
    match stream.poll_next() {
        StreamStep::Ready(line) => assert_eq!(line, frame_event(&added("first"))),
        StreamStep::Pending => panic!("an event was waiting"),
    }
    match stream.poll_next() {
        StreamStep::Ready(line) => assert_eq!(line, frame_event(&added("second"))),
        StreamStep::Pending => panic!("an event was waiting"),
    }
}

#[test]
fn a_stream_without_events_is_pending_after_the_wait() {
    assert_eq!(POLL_TIMEOUT_SECONDS, 1);
    let (tx, rx) = channel::<WatchEvent>();
    let stream = WatchStream::new(rx);
    let started = std::time::Instant::now();
    assert!(matches!(stream.poll_next(), StreamStep::Pending));
    assert!(started.elapsed() >= std::time::Duration::from_millis(900));
    drop(tx);
    assert!(matches!(stream.poll_next(), StreamStep::Pending));
}

#[test]
fn a_new_broker_has_no_watchers() {
    let broker = EventBroker::new();
    assert!(broker.subscribers(&kind("example.com", "widgets")).is_empty());
}

#[test]
fn watchers_are_numbered_in_the_order_of_their_registration() {
    let mut broker = EventBroker::new();
    let (tx1, _rx1) = channel();
    let (tx2, _rx2) = channel();
    let (tx3, _rx3) = channel();
    assert_eq!(broker.register((kind("example.com", "widgets"), tx1)), Some(0));
    assert_eq!(broker.register((kind("example.com", "gadgets"), tx2)), Some(1));
    assert_eq!(broker.register((kind("example.com", "widgets"), tx3)), Some(2));
    assert_eq!(broker.subscribers(&kind("example.com", "widgets")), vec![0, 2]);
    assert_eq!(broker.subscribers(&kind("example.com", "gadgets")), vec![1]);
    assert!(broker.subscribers(&kind("other.io", "widgets")).is_empty());
}

#[test]
fn every_watcher_of_the_type_gets_every_event_in_order() {
    let mut broker = EventBroker::new();
    let (tx1, rx1) = channel();
    let (tx2, rx2) = channel();
    let (tx3, rx3) = channel();
    broker.register((kind("example.com", "widgets"), tx1));
    broker.register((kind("example.com", "widgets"), tx2));
    broker.register((kind("example.com", "gadgets"), tx3));
    assert!(broker.new_event(event("a", "example.com", "widgets")).is_empty());
    assert!(broker.new_event(event("b", "example.com", "widgets")).is_empty());
    assert!(broker.new_event(event("g", "example.com", "gadgets")).is_empty());
    assert!(broker.new_event(event("c", "example.com", "widgets")).is_empty());
    assert_eq!(names(&rx1), vec!["a", "b", "c"]);
    assert_eq!(names(&rx2), vec!["a", "b", "c"]);
    assert_eq!(names(&rx3), vec!["g"]);
}

#[test]
fn a_late_watcher_misses_what_was_published_before() {
    let mut broker = EventBroker::new();
    let (tx1, rx1) = channel();
    broker.register((kind("example.com", "widgets"), tx1));
    broker.new_event(event("e1", "example.com", "widgets"));
    let (tx2, rx2) = channel();
    broker.register((kind("example.com", "widgets"), tx2));
    broker.new_event(event("e2", "example.com", "widgets"));
    assert_eq!(names(&rx1), vec!["e1", "e2"]);
    assert_eq!(names(&rx2), vec!["e2"]);
}

#[test]
fn an_event_without_watchers_goes_nowhere() {
    let mut broker = EventBroker::new();
    let (tx, rx) = channel();
    broker.register((kind("example.com", "gadgets"), tx));
    assert!(broker.new_event(event("a", "example.com", "widgets")).is_empty());
    assert!(names(&rx).is_empty());
    assert_eq!(broker.subscribers(&kind("example.com", "gadgets")), vec![0]);
}

#[test]
fn a_watcher_that_hung_up_is_removed() {
    let mut broker = EventBroker::new();
    let (tx1, rx1) = channel();
    let (tx2, rx2) = channel();
    let (tx3, rx3) = channel();
    let (tx4, rx4) = channel();
    broker.register((kind("example.com", "widgets"), tx1));
    broker.register((kind("example.com", "widgets"), tx2));
    broker.register((kind("example.com", "gadgets"), tx3));
    broker.register((kind("example.com", "widgets"), tx4));
    drop(rx2);
    drop(rx3);
    assert_eq!(broker.new_event(event("a", "example.com", "widgets")), vec![1]);
    assert_eq!(broker.subscribers(&kind("example.com", "widgets")), vec![0, 3]);
    assert_eq!(broker.subscribers(&kind("example.com", "gadgets")), vec![2]);
    assert!(broker.new_event(event("b", "example.com", "widgets")).is_empty());
    assert_eq!(names(&rx1), vec!["a", "b"]);
    assert_eq!(names(&rx4), vec!["a", "b"]);
    assert_eq!(broker.new_event(event("g", "example.com", "gadgets")), vec![2]);
    assert!(broker.subscribers(&kind("example.com", "gadgets")).is_empty());
    drop(rx1);
    drop(rx4);
    assert_eq!(broker.new_event(event("c", "example.com", "widgets")), vec![0, 3]);
    assert!(broker.subscribers(&kind("example.com", "widgets")).is_empty());
}

#[test]
fn numbers_are_not_given_twice() {
    let mut broker = EventBroker::new();
    let (tx1, rx1) = channel();
    assert_eq!(broker.register((kind("example.com", "widgets"), tx1)), Some(0));
    drop(rx1);
    assert_eq!(broker.new_event(event("a", "example.com", "widgets")), vec![0]);
    let (tx2, _rx2) = channel();
    assert_eq!(broker.register((kind("example.com", "widgets"), tx2)), Some(1));
}

#[test]
fn a_broker_feeds_a_stream() {
    let mut broker = EventBroker::new();
    let (tx, rx) = channel();
    broker.register((kind("example.com", "widgets"), tx));
    let stream = WatchStream::new(rx);
    broker.new_event(event("foo", "example.com", "widgets"));
    match stream.poll_next() {
        StreamStep::Ready(line) => {
            assert_eq!(line, b"{\"type\":\"ADDED\",\"object\":{\"metadata\":{\"name\":\"foo\"}}}\n".to_vec())
        }
        StreamStep::Pending => panic!("an event was published"),
    }
    drop(stream);
    assert_eq!(broker.new_event(event("bar", "example.com", "widgets")), vec![0]);
}

#[test]
fn settling_removes_the_watchers_whose_send_failed() {
    let mut broker = EventBroker::new();
    let (tx1, rx1) = channel();
    let (tx2, _rx2) = channel();
    let (tx3, _rx3) = channel();
    let (tx4, rx4) = channel();
    broker.register((kind("example.com", "widgets"), tx1));
    broker.register((kind("example.com", "gadgets"), tx2));
    broker.register((kind("example.com", "widgets"), tx3));
    broker.register((kind("example.com", "widgets"), tx4));
    let gone = broker.settle(&kind("example.com", "widgets"), &vec![true, false, true]);
    assert_eq!(gone, vec![2]);
    assert_eq!(broker.subscribers(&kind("example.com", "widgets")), vec![0, 3]);
    assert_eq!(broker.subscribers(&kind("example.com", "gadgets")), vec![1]);
    assert!(broker.new_event(event("a", "example.com", "widgets")).is_empty());
    assert_eq!(names(&rx1), vec!["a"]);
    assert_eq!(names(&rx4), vec!["a"]);
}

#[test]
fn settling_keeps_a_watcher_without_an_outcome() {
    let mut broker = EventBroker::new();
    let (tx1, _rx1) = channel();
    let (tx2, _rx2) = channel();
    let (tx3, _rx3) = channel();
    broker.register((kind("example.com", "widgets"), tx1));
    broker.register((kind("example.com", "widgets"), tx2));
    broker.register((kind("example.com", "widgets"), tx3));
    assert_eq!(broker.settle(&kind("example.com", "widgets"), &vec![false]), vec![0]);
    assert_eq!(broker.subscribers(&kind("example.com", "widgets")), vec![1, 2]);
    assert!(broker.settle(&kind("example.com", "widgets"), &Vec::new()).is_empty());
    assert!(broker.settle(&kind("example.com", "widgets"), &vec![true, true, false, false]).is_empty());
    assert_eq!(broker.settle(&kind("example.com", "widgets"), &vec![false, false]), vec![1, 2]);
    assert!(broker.subscribers(&kind("example.com", "widgets")).is_empty());
}

#[test]
fn settling_another_type_removes_nothing() {
    let mut broker = EventBroker::new();
    let (tx1, _rx1) = channel();
    broker.register((kind("example.com", "widgets"), tx1));
    assert!(broker.settle(&kind("example.com", "gadgets"), &vec![false, false]).is_empty());
    assert_eq!(broker.subscribers(&kind("example.com", "widgets")), vec![0]);
}
